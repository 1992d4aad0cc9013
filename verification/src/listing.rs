//! The logic of `get`: which services are listed, how a name is resolved, how services
//! are described in batches, and how each is shown as a row of the table.
use vstd::prelude::*;
use crate::command::{CommandError, check_resource, resource_type};
use crate::text::{
    texts,
    contains_seq, contains_text, decimal_text, find_char_from, int_decimal, pad_right, padded,
    starts_with_text,
};

verus! {

/// The largest number of services one describe call takes.
pub const DESCRIBE_BATCH: usize = 10;

/// The service name for `get oabservice <name>`: the name itself when it already starts
/// with `oab-`, otherwise the service of that agent in namespace `prod`.
pub open spec fn resolved_name(name: Seq<char>) -> Seq<char> {
    if "oab-"@.is_prefix_of(name) {
        name
    } else {
        "oab-prod-"@ + name
    }
}

/// Resolves the name given to `get oabservice <name>` to an ECS service name.
pub fn resolve_service_name(name: &str) -> (service: String)
    ensures
        service@ == resolved_name(name@),
{
    if starts_with_text(name, "oab-") {
        String::from_str(name)
    } else {
        String::from_str("oab-prod-").concat(name)
    }
}

/// The services `get` shows.
#[derive(Debug)]
pub enum ListingTarget {
    /// The one service of this name.
    Named(String),
    /// Every managed service of the cluster.
    All,
}

/// Plans `get oabservice [name]`: refuses any resource type but `oabservice`; with a
/// name, shows the service it resolves to, without one every managed service.
pub fn plan_listing(resource: &str, name: Option<&str>) -> (r: Result<ListingTarget, CommandError>)
    ensures
        r is Ok <==> resource@ == resource_type(),
        r matches Err(e) ==> (e matches CommandError::UnknownResource(t) && t@ == resource@),
        r matches Ok(target) ==> match name {
            Some(n) => target matches ListingTarget::Named(s) && s@ == resolved_name(n@),
            None => target is All,
        },
{
    match check_resource(resource) {
        Err(e) => Err(e),
        Ok(()) => match name {
            Some(n) => Ok(ListingTarget::Named(resolve_service_name(n))),
            None => Ok(ListingTarget::All),
        },
    }
}

/// An ARN of a service this tool manages: one that contains `/oab-`.
pub open spec fn is_oab_arn(arn: Seq<char>) -> bool {
    contains_seq(arn, "/oab-"@)
}

/// The ARNs among `arns` of services this tool manages, in order.
pub open spec fn oab_arns(arns: Seq<Seq<char>>) -> Seq<Seq<char>>
    decreases arns.len(),
{
    if arns.len() == 0 {
        Seq::empty()
    } else if is_oab_arn(arns.last()) {
        oab_arns(arns.drop_last()).push(arns.last())
    } else {
        oab_arns(arns.drop_last())
    }
}

/// Whether an ARN names a service this tool manages.
pub fn is_oab_service_arn(arn: &str) -> (managed: bool)
    ensures
        managed == is_oab_arn(arn@),
{
    contains_text(arn, "/oab-")
}

/// The ARNs of one page of the service listing that name services this tool manages.
pub fn select_oab_services(arns: &Vec<String>) -> (selected: Vec<String>)
    ensures
        texts(selected@) == oab_arns(texts(arns@)),
{
    let mut out: Vec<String> = Vec::new();
    let n = arns.len();
    let mut i: usize = 0;
    while i < n
        invariant
            n == arns@.len(),
            i <= n,
            texts(out@) == oab_arns(texts(arns@.take(i as int))),
        decreases n - i,
    {
        let ghost before = out@;
        let a = &arns[i];
        assert(texts(arns@.take(i + 1)).drop_last() =~= texts(arns@.take(i as int)));
        assert(texts(arns@.take(i + 1)).last() == a@);
        if is_oab_service_arn(a.as_str()) {
            out.push(a.clone());
            assert(texts(out@) =~= texts(before).push(a@));
        }
        i = i + 1;
    }
    assert(arns@.take(n as int) =~= arns@);
    out
}

/// The state of a paginated service listing: the managed services found so far.
#[derive(Debug)]
pub struct ServiceListing {
    pub found: Vec<String>,
}

impl ServiceListing {
    /// A listing that has found nothing yet.
    pub fn new() -> (listing: ServiceListing)
        ensures
            listing.found@.len() == 0,
    {
        ServiceListing { found: Vec::new() }
    }

    /// Takes in one page of service ARNs and the page's continuation token; answers
    /// whether another page is to be requested (exactly when there is a token).
    pub fn absorb_page(&mut self, page: &Vec<String>, next_token: &Option<String>) -> (more: bool)
        ensures
            texts(final(self).found@) == texts(old(self).found@) + oab_arns(texts(page@)),
            more == next_token.is_some(),
    {
        let selected = select_oab_services(page);
        let ghost before = self.found@;
        let n = selected.len();
        let mut i: usize = 0;
        while i < n
            invariant
                n == selected@.len(),
                i <= n,
                self.found@.len() == before.len() + i,
                forall|j: int| 0 <= j < before.len() ==> #[trigger] self.found@[j]@ == before[j]@,
                forall|j: int|
                    0 <= j < i ==> #[trigger] self.found@[before.len() + j]@ == selected@[j]@,
            decreases n - i,
        {
            self.found.push(selected[i].clone());
            i = i + 1;
        }
        assert forall|k: int| 0 <= k < self.found@.len() implies texts(self.found@)[k] == (
        texts(before) + texts(selected@))[k] by {
            if k >= before.len() {
                let j = k - before.len();
                assert(self.found@[before.len() + j]@ == selected@[j]@);
            }
        }
        assert(texts(self.found@) =~= texts(before) + texts(selected@));
        next_token.is_some()
    }
}

/// Where batch `k` starts.
pub open spec fn batch_start(k: int) -> int {
    DESCRIBE_BATCH * k
}

/// The end of the batch that starts at `start` in a list of `n` services.
pub open spec fn batch_end(start: int, n: int) -> int {
    if start + DESCRIBE_BATCH < n {
        start + DESCRIBE_BATCH
    } else {
        n
    }
}

/// The number of batches a list of `n` services is described in.
pub open spec fn batch_count(n: int) -> int {
    (n + DESCRIBE_BATCH - 1) / (DESCRIBE_BATCH as int)
}

/// The elements `lo..hi` of a list of strings, copied.
fn copy_range(v: &Vec<String>, lo: usize, hi: usize) -> (c: Vec<String>)
    requires
        lo <= hi <= v@.len(),
    ensures
        texts(c@) == texts(v@).subrange(lo as int, hi as int),
{
    let mut out: Vec<String> = Vec::new();
    let mut i: usize = lo;
    while i < hi
        invariant
            lo <= i <= hi,
            hi <= v@.len(),
            out@.len() == i - lo,
            forall|j: int| 0 <= j < i - lo ==> #[trigger] out@[j]@ == v@[lo + j]@,
        decreases hi - i,
    {
        out.push(v[i].clone());
        i = i + 1;
    }
    assert(texts(out@) =~= texts(v@).subrange(lo as int, hi as int));
    out
}

/// Splits the services into the batches in which they are described: consecutive runs of
/// ten, the last one shorter when the count is not a multiple of ten.
pub fn service_batches(services: &Vec<String>) -> (batches: Vec<Vec<String>>)
    ensures
        batches@.len() == batch_count(services@.len() as int),
        forall|k: int|
            0 <= k < batches@.len() ==> texts(#[trigger] batches@[k]@) == texts(
                services@,
            ).subrange(batch_start(k), batch_end(batch_start(k), services@.len() as int)),
{
    let n = services.len();
    let mut out: Vec<Vec<String>> = Vec::new();
    let mut start: usize = 0;
    while start < n
        invariant
            n == services@.len(),
            start <= n,
            start == DESCRIBE_BATCH * out@.len() || (start == n && out@.len() == batch_count(
                n as int,
            )),
            start < n ==> start == DESCRIBE_BATCH * out@.len(),
            out@.len() == batch_count(start as int),
            forall|k: int|
                0 <= k < out@.len() ==> texts(#[trigger] out@[k]@) == texts(services@).subrange(
                    batch_start(k),
                    batch_end(batch_start(k), n as int),
                ),
        decreases n - start,
    {
        let end = if n - start > DESCRIBE_BATCH {
            start + DESCRIBE_BATCH
        } else {
            n
        };
        let batch = copy_range(services, start, end);
        out.push(batch);
        start = end;
    }
    out
}

/// The first and second `-` of `s` are at `i` and `j`.
pub open spec fn dashes_at(s: Seq<char>, i: int, j: int) -> bool {
    &&& 0 <= i < j < s.len()
    &&& s[i] == '-'
    &&& s[j] == '-'
    &&& forall|k: int| 0 <= k < i ==> s[k] != '-'
    &&& forall|k: int| i < k < j ==> s[k] != '-'
}

/// Namespace and agent name read from a service name split at its first two dashes
/// (`oab-{namespace}-{name}`): the part between them and everything after the second;
/// `?` and the whole name when it has fewer than two dashes.
pub open spec fn name_parts(s: Seq<char>) -> (Seq<char>, Seq<char>) {
    if exists|i: int, j: int| dashes_at(s, i, j) {
        let (i, j) = choose|i: int, j: int| dashes_at(s, i, j);
        (s.subrange(i + 1, j), s.subrange(j + 1, s.len() as int))
    } else {
        ("?"@, s)
    }
}

/// The first two dashes are unique.
pub proof fn lemma_dashes_unique(s: Seq<char>, i: int, j: int, i2: int, j2: int)
    requires
        dashes_at(s, i, j),
        dashes_at(s, i2, j2),
    ensures
        i == i2 && j == j2,
{
    if i < i2 {
        assert(s[i] != '-');
    }
    if i2 < i {
        assert(s[i2] != '-');
    }
    if j < j2 {
        assert(s[j] != '-');
    }
    if j2 < j {
        assert(s[j2] != '-');
    }
}

/// Splits a service name into namespace and agent name.
pub fn split_service_name(service: &str) -> (parts: (String, String))
    ensures
        (parts.0@, parts.1@) == name_parts(service@),
{
    let n = service.unicode_len();
    let first = find_char_from(service, '-', 0);
    match first {
        None => {
            proof {
                assert(!exists|i: int, j: int| dashes_at(service@, i, j)) by {
                    assert forall|i: int, j: int| !dashes_at(service@, i, j) by {
                        if dashes_at(service@, i, j) {
                            assert(service@[i] == '-');
                        }
                    }
                }
                reveal_strlit("?");
            }
            (String::from_str("?"), String::from_str(service))
        },
        Some(i) => {
            let second = find_char_from(service, '-', i + 1);
            match second {
                None => {
                    proof {
                        assert forall|a: int, b: int| !dashes_at(service@, a, b) by {
                            if dashes_at(service@, a, b) {
                                if a < i {
                                    assert(service@[a] == '-');
                                } else if a > i {
                                    assert(service@[i as int] == '-');
                                } else {
                                    assert(service@[b] == '-');
                                }
                            }
                        }
                        reveal_strlit("?");
                    }
                    (String::from_str("?"), String::from_str(service))
                },
                Some(j) => {
                    proof {
                        assert(dashes_at(service@, i as int, j as int));
                        let (a, b) = choose|a: int, b: int| dashes_at(service@, a, b);
                        lemma_dashes_unique(service@, i as int, j as int, a, b);
                    }
                    let ns = service.substring_char(i + 1, j);
                    let agent = service.substring_char(j + 1, n);
                    (String::from_str(ns), String::from_str(agent))
                },
            }
        },
    }
}

/// What the listing learned of one service; `None` where the service or its task
/// definition did not say, or where the task definition could not be read.
#[derive(Debug)]
pub struct ServiceSummary {
    pub service_name: Option<String>,
    pub status: Option<String>,
    pub running_count: i32,
    pub desired_count: i32,
    pub cpu: Option<String>,
    pub memory: Option<String>,
    pub capacity_provider: Option<String>,
}

/// The text of an optional value, or `fallback` when it is absent.
pub open spec fn text_or(value: Option<String>, fallback: Seq<char>) -> Seq<char> {
    match value {
        Some(v) => v@,
        None => fallback,
    }
}

/// One row of the service table, its columns left-aligned in fields of 12, 10, 5, 6
/// and 14 characters, then `running/desired` (the desired count in a field of 3) and
/// the status.
pub open spec fn row_text(
    agent: Seq<char>,
    namespace: Seq<char>,
    cpu: Seq<char>,
    memory: Seq<char>,
    capacity: Seq<char>,
    running: int,
    desired: int,
    status: Seq<char>,
) -> Seq<char> {
    padded(agent, 12) + " "@ + padded(namespace, 10) + " "@ + padded(cpu, 5) + " "@ + padded(
        memory,
        6,
    ) + " "@ + padded(capacity, 14) + " "@ + int_decimal(running) + "/"@ + padded(
        int_decimal(desired),
        3,
    ) + " "@ + status
}

/// The row shown for a service: a missing name reads `-`, a missing status `UNKNOWN`,
/// missing CPU and memory `-`, a missing capacity provider `FARGATE`.
pub open spec fn summary_row(s: ServiceSummary) -> Seq<char> {
    let parts = name_parts(text_or(s.service_name, "-"@));
    row_text(
        parts.1,
        parts.0,
        text_or(s.cpu, "-"@),
        text_or(s.memory, "-"@),
        text_or(s.capacity_provider, "FARGATE"@),
        s.running_count as int,
        s.desired_count as int,
        text_or(s.status, "UNKNOWN"@),
    )
}

/// The text of an optional value, or `fallback`.
fn or_text(value: &Option<String>, fallback: &str) -> (t: String)
    ensures
        t@ == text_or(*value, fallback@),
{
    match value {
        Some(v) => v.clone(),
        None => String::from_str(fallback),
    }
}

/// Renders one row of the service table.
pub fn service_row(s: &ServiceSummary) -> (row: String)
    ensures
        row@ == summary_row(*s),
{
    let name = or_text(&s.service_name, "-");
    let parts = split_service_name(name.as_str());
    let cpu = or_text(&s.cpu, "-");
    let memory = or_text(&s.memory, "-");
    let capacity = or_text(&s.capacity_provider, "FARGATE");
    let status = or_text(&s.status, "UNKNOWN");
    let running = decimal_text(s.running_count as i64);
    let desired = decimal_text(s.desired_count as i64);
    pad_right(parts.1.as_str(), 12).concat(" ").concat(pad_right(parts.0.as_str(), 10).as_str()).concat(
        " ",
    ).concat(pad_right(cpu.as_str(), 5).as_str()).concat(" ").concat(
        pad_right(memory.as_str(), 6).as_str(),
    ).concat(" ").concat(pad_right(capacity.as_str(), 14).as_str()).concat(" ").concat(
        running.as_str(),
    ).concat("/").concat(pad_right(desired.as_str(), 3).as_str()).concat(" ").concat(
        status.as_str(),
    )
}

/// The header of the service table.
pub open spec fn header_text() -> Seq<char> {
    padded("NAME"@, 12) + " "@ + padded("NAMESPACE"@, 10) + " "@ + padded("CPU"@, 5) + " "@
        + padded("MEM"@, 6) + " "@ + padded("CAPACITY"@, 14) + " "@ + padded("TASKS"@, 6) + " "@
        + "STATUS"@
}

/// Renders the header of the service table.
pub fn table_header() -> (header: String)
    ensures
        header@ == header_text(),
{
    pad_right("NAME", 12).concat(" ").concat(pad_right("NAMESPACE", 10).as_str()).concat(
        " ",
    ).concat(pad_right("CPU", 5).as_str()).concat(" ").concat(pad_right("MEM", 6).as_str()).concat(
        " ",
    ).concat(pad_right("CAPACITY", 14).as_str()).concat(" ").concat(
        pad_right("TASKS", 6).as_str(),
    ).concat(" ").concat("STATUS")
}

} // verus!
