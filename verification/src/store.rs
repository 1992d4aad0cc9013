//! The layout of the control-plane bucket: where manifests and rendered configurations
//! are kept.
use vstd::prelude::*;
use crate::text::{
    lemma_decimal_injective, lemma_decimal_round_trip, nat_decimal, parse_decimal,
    starts_with_text, text_eq, texts, unsigned_decimal_text,
};

verus! {

/// The name of the control-plane bucket.
pub open spec fn bucket_name() -> Seq<char> {
    "oab-control-plane"@
}

/// The name of the control-plane bucket.
pub fn control_plane_bucket() -> (bucket: String)
    ensures
        bucket@ == bucket_name(),
{
    String::from_str("oab-control-plane")
}

/// `config/{namespace}/{name}/`: the prefix under which every generation of an agent's
/// rendered configuration is kept.
pub open spec fn config_prefix_of(namespace: Seq<char>, name: Seq<char>) -> Seq<char> {
    "config/"@ + namespace + "/"@ + name + "/"@
}

/// `{prefix}{generation}/config.toml`: the key of one generation of a configuration
/// under `prefix`.
pub open spec fn generation_key(prefix: Seq<char>, generation: nat) -> Seq<char> {
    prefix + nat_decimal(generation) + "/config.toml"@
}

/// `config/{namespace}/{name}/{generation}/config.toml`: the immutable key of one
/// generation of an agent's rendered configuration.
pub open spec fn config_key_of(namespace: Seq<char>, name: Seq<char>, generation: nat) -> Seq<char> {
    generation_key(config_prefix_of(namespace, name), generation)
}

/// `manifests/{namespace}/{name}.yaml`: the key of an agent's manifest.
pub open spec fn manifest_key_of(namespace: Seq<char>, name: Seq<char>) -> Seq<char> {
    "manifests/"@ + namespace + "/"@ + name + ".yaml"@
}

/// `s3://{bucket}/{key}`.
pub open spec fn s3_uri_of(bucket: Seq<char>, key: Seq<char>) -> Seq<char> {
    "s3://"@ + bucket + "/"@ + key
}

/// The prefix under which every generation of an agent's configuration is kept.
pub fn config_prefix(namespace: &str, name: &str) -> (prefix: String)
    ensures
        prefix@ == config_prefix_of(namespace@, name@),
{
    String::from_str("config/").concat(namespace).concat("/").concat(name).concat("/")
}

/// The key of one generation of an agent's rendered configuration.
pub fn config_object_key(namespace: &str, name: &str, generation: u64) -> (key: String)
    ensures
        key@ == config_key_of(namespace@, name@, generation as nat),
{
    let prefix = config_prefix(namespace, name);
    let gen = unsigned_decimal_text(generation);
    prefix.concat(gen.as_str()).concat("/config.toml")
}

/// The key of an agent's manifest.
pub fn manifest_object_key(namespace: &str, name: &str) -> (key: String)
    ensures
        key@ == manifest_key_of(namespace@, name@),
{
    String::from_str("manifests/").concat(namespace).concat("/").concat(name).concat(".yaml")
}

/// The `s3://` address of `key` in `bucket`.
pub fn s3_uri(bucket: &str, key: &str) -> (uri: String)
    ensures
        uri@ == s3_uri_of(bucket@, key@),
{
    String::from_str("s3://").concat(bucket).concat("/").concat(key)
}

/// Different generations have different keys.
pub proof fn lemma_generation_key_injective(prefix: Seq<char>, a: nat, b: nat)
    requires
        generation_key(prefix, a) == generation_key(prefix, b),
    ensures
        a == b,
{
    reveal_strlit("/config.toml");
    let ka = generation_key(prefix, a);
    let kb = generation_key(prefix, b);
    let p = prefix.len() as int;
    assert(ka.len() == kb.len());
    assert(nat_decimal(a).len() == nat_decimal(b).len());
    assert(ka.subrange(p, p + nat_decimal(a).len()) =~= nat_decimal(a));
    assert(kb.subrange(p, p + nat_decimal(b).len()) =~= nat_decimal(b));
    lemma_decimal_injective(a, b);
}

/// The generation whose configuration key under `prefix` is `key`, when `key` is such a
/// key for a generation that fits in 64 bits.
pub open spec fn key_generation(prefix: Seq<char>, key: Seq<char>) -> Option<u64> {
    if exists|g: u64| key == generation_key(prefix, g as nat) {
        Some(choose|g: u64| key == generation_key(prefix, g as nat))
    } else {
        None
    }
}

/// The generation of a key that is the configuration key of generation `g`.
pub proof fn lemma_key_generation_of(prefix: Seq<char>, g: u64)
    ensures
        key_generation(prefix, generation_key(prefix, g as nat)) == Some(g),
{
    let key = generation_key(prefix, g as nat);
    assert(exists|h: u64| key == generation_key(prefix, h as nat));
    let h = choose|h: u64| key == generation_key(prefix, h as nat);
    lemma_generation_key_injective(prefix, g as nat, h as nat);
}

/// Reads the generation back from a listed key: `Some(g)` exactly when the key is
/// `{prefix}{g}/config.toml` with `g` in canonical decimal.
pub fn generation_of_key(prefix: &str, key: &str) -> (g: Option<u64>)
    ensures
        g == key_generation(prefix@, key@),
{
    proof {
        reveal_strlit("/config.toml");
    }
    let n = key.unicode_len();
    let p = prefix.unicode_len();
    if !starts_with_text(key, prefix) {
        proof {
            assert forall|h: u64| key@ != generation_key(prefix@, h as nat) by {
                if key@ == generation_key(prefix@, h as nat) {
                    assert(key@.subrange(0, p as int) =~= prefix@);
                }
            }
        }
        return None;
    }
    if n - p < 13 {
        proof {
            assert forall|h: u64| key@ != generation_key(prefix@, h as nat) by {
                lemma_decimal_round_trip(h as nat);
            }
        }
        return None;
    }
    let tail = key.substring_char(n - 12, n);
    if !text_eq(tail, "/config.toml") {
        proof {
            assert forall|h: u64| key@ != generation_key(prefix@, h as nat) by {
                if key@ == generation_key(prefix@, h as nat) {
                    assert(key@.subrange(n - 12, n as int) =~= "/config.toml"@);
                }
            }
        }
        return None;
    }
    let middle = key.substring_char(p, n - 12);
    proof {
        assert forall|h: u64| key@ == generation_key(prefix@, h as nat) implies middle@
            == nat_decimal(h as nat) by {
            assert(key@.subrange(p as int, n - 12) =~= nat_decimal(h as nat));
        }
    }
    match parse_decimal(middle) {
        None => {
            return None;
        },
        Some(v) => {
            let candidate = String::from_str(prefix).concat(unsigned_decimal_text(v).as_str()).concat(
                "/config.toml",
            );
            if text_eq(candidate.as_str(), key) {
                proof {
                    lemma_key_generation_of(prefix@, v);
                }
                Some(v)
            } else {
                proof {
                    assert forall|h: u64| key@ != generation_key(prefix@, h as nat) by {
                        if key@ == generation_key(prefix@, h as nat) {
                            assert(middle@ == nat_decimal(h as nat));
                        }
                    }
                }
                None
            }
        },
    }
}

/// The generations of the configuration keys among `keys`, in order.
pub open spec fn generations_in(prefix: Seq<char>, keys: Seq<Seq<char>>) -> Seq<u64>
    decreases keys.len(),
{
    if keys.len() == 0 {
        Seq::empty()
    } else {
        match key_generation(prefix, keys.last()) {
            Some(g) => generations_in(prefix, keys.drop_last()).push(g),
            None => generations_in(prefix, keys.drop_last()),
        }
    }
}

/// The generations already stored, read from the keys listed under `prefix`.
pub fn stored_generations(prefix: &str, keys: &Vec<String>) -> (stored: Vec<u64>)
    ensures
        stored@ == generations_in(prefix@, texts(keys@)),
{
    let ghost all = texts(keys@);
    let mut out: Vec<u64> = Vec::new();
    let n = keys.len();
    let mut i: usize = 0;
    while i < n
        invariant
            n == keys@.len(),
            i <= n,
            all == texts(keys@),
            out@ == generations_in(prefix@, all.take(i as int)),
        decreases n - i,
    {
        assert(all.take(i + 1).drop_last() =~= all.take(i as int));
        assert(all.take(i + 1).last() == keys@[i as int]@);
        match generation_of_key(prefix, keys[i].as_str()) {
            Some(g) => out.push(g),
            None => {},
        }
        i = i + 1;
    }
    assert(all.take(n as int) =~= all);
    out
}

/// The largest of the generations; 0 when there are none.
pub open spec fn max_generation(stored: Seq<u64>) -> int
    decreases stored.len(),
{
    if stored.len() == 0 {
        0
    } else {
        let rest = max_generation(stored.drop_last());
        if stored.last() > rest {
            stored.last() as int
        } else {
            rest
        }
    }
}

/// The generation a new configuration gets: one more than the largest stored (1 when
/// none is), or none when the largest possible generation is already stored.
pub open spec fn next_generation_of(stored: Seq<u64>) -> Option<u64> {
    if exists|i: int| 0 <= i < stored.len() && stored[i] == u64::MAX {
        None
    } else {
        Some((max_generation(stored) + 1) as u64)
    }
}

/// Every stored generation is at most the largest, which is at most `u64::MAX`, and
/// it is `u64::MAX` only when that generation is stored.
pub proof fn lemma_max_generation(stored: Seq<u64>)
    ensures
        forall|i: int| 0 <= i < stored.len() ==> stored[i] <= max_generation(stored),
        0 <= max_generation(stored) <= u64::MAX,
        max_generation(stored) == u64::MAX ==> exists|i: int|
            0 <= i < stored.len() && stored[i] == u64::MAX,
    decreases stored.len(),
{
    if stored.len() > 0 {
        let rest = stored.drop_last();
        lemma_max_generation(rest);
        assert forall|i: int| 0 <= i < stored.len() implies stored[i] <= max_generation(stored) by {
            if i < stored.len() - 1 {
                assert(stored[i] == rest[i]);
            }
        }
        if max_generation(stored) == u64::MAX {
            if stored.last() == u64::MAX {
                assert(stored[stored.len() - 1] == u64::MAX);
            } else {
                let i = choose|i: int| 0 <= i < rest.len() && rest[i] == u64::MAX;
                assert(stored[i] == u64::MAX);
            }
        }
    }
}

/// The generation a new configuration gets: above every stored one.
pub fn next_generation(stored: &Vec<u64>) -> (g: Option<u64>)
    ensures
        g == next_generation_of(stored@),
        g matches Some(n) ==> forall|i: int| 0 <= i < stored@.len() ==> stored@[i] < n,
        g is None <==> exists|i: int| 0 <= i < stored@.len() && stored@[i] == u64::MAX,
{
    let n = stored.len();
    let mut max: u64 = 0;
    let mut i: usize = 0;
    while i < n
        invariant
            n == stored@.len(),
            i <= n,
            max == max_generation(stored@.take(i as int)),
            forall|j: int| 0 <= j < i ==> stored@[j] != u64::MAX,
        decreases n - i,
    {
        assert(stored@.take(i + 1).drop_last() =~= stored@.take(i as int));
        if stored[i] == u64::MAX {
            return None;
        }
        if stored[i] > max {
            max = stored[i];
        }
        i = i + 1;
    }
    assert(stored@.take(n as int) =~= stored@);
    proof {
        lemma_max_generation(stored@);
    }
    Some(max + 1)
}

/// The state of a paginated listing of stored object keys: the keys found so far, in
/// the order in which the pages gave them.
#[derive(Debug)]
pub struct KeyListing {
    pub keys: Vec<String>,
}

impl KeyListing {
    /// A listing that has found nothing yet.
    pub fn new() -> (listing: KeyListing)
        ensures
            listing.keys@.len() == 0,
    {
        KeyListing { keys: Vec::new() }
    }

    /// Takes in one page of object keys and the page's continuation token; keeps every
    /// key of the page after those found before, and answers whether another page is
    /// to be requested (exactly when there is a token).
    pub fn absorb_page(&mut self, page: &Vec<String>, next_token: &Option<String>) -> (more: bool)
        ensures
            texts(final(self).keys@) == texts(old(self).keys@) + texts(page@),
            more == next_token.is_some(),
    {
        let ghost before = self.keys@;
        let n = page.len();
        let mut i: usize = 0;
        while i < n
            invariant
                n == page@.len(),
                i <= n,
                self.keys@.len() == before.len() + i,
                forall|j: int| 0 <= j < before.len() ==> #[trigger] self.keys@[j]@ == before[j]@,
                forall|j: int| 0 <= j < i ==> #[trigger] self.keys@[before.len() + j]@ == page@[j]@,
            decreases n - i,
        {
            self.keys.push(page[i].clone());
            i = i + 1;
        }
        assert forall|k: int| 0 <= k < self.keys@.len() implies texts(self.keys@)[k] == (texts(
            before,
        ) + texts(page@))[k] by {
            if k >= before.len() {
                let j = k - before.len();
                assert(self.keys@[before.len() + j]@ == page@[j]@);
            }
        }
        assert(texts(self.keys@) =~= texts(before) + texts(page@));
        next_token.is_some()
    }
}

} // verus!
