//! Properties that relate the operations to one another: `delete` removes what `apply`
//! creates, `apply` never overwrites a stored configuration, `get` finds what `apply`
//! deploys, listing services page by page or in batches neither loses nor reorders any,
//! and `config.toml`, every value in it and the whole document, reads back exactly; and
//! what single operations do, stated over their inputs: the rules of `validate`, the
//! container environment, which files are manifests, and the columns of a table row.
use vstd::prelude::*;
use crate::deploy::{ApplyPlan, plans_apply};
use crate::listing::{
    DESCRIBE_BATCH, batch_count, batch_start, batch_end, dashes_at, lemma_dashes_unique, name_parts, oab_arns,
    resolved_name,
};
use crate::manifest::{AgentConfig, OABServiceManifest, service_name_of};
use crate::store::{
    config_key_of, config_prefix_of, generations_in, key_generation, lemma_key_generation_of,
    lemma_max_generation, max_generation, next_generation_of,
};
use crate::teardown::{DeletePlan, plans_delete};
use crate::toml::{TomlItem, escaped, is_bare_key, key_text, lemma_scan_escaped, parse_doc, scan_basic};
use crate::config::{channels_section, config_toml, features_section, steering_section, backend_section};
use crate::config_read::{
    backend_items, channels_items, config_items, features_items, lemma_backend, lemma_channels,
    lemma_features, lemma_steering, steering_items,
};

verus! {

/// `delete` of an agent removes what `apply` of its manifest creates: the same ECS
/// service and manifest record in the same bucket, and a configuration prefix under
/// which the uploaded configuration lies.
pub proof fn law_delete_covers_apply(
    m: OABServiceManifest,
    generation: u64,
    applied: ApplyPlan,
    deleted: DeletePlan,
)
    requires
        plans_apply(m, generation, applied),
        plans_delete(m.metadata.namespace@, m.metadata.name@, deleted),
    ensures
        deleted.service_name@ == applied.service.service_name@,
        deleted.service_name@ == applied.task.family@,
        deleted.bucket@ == applied.bucket@,
        deleted.manifest_key@ == applied.manifest_key@,
        deleted.config_prefix@.is_prefix_of(applied.config_key@),
{
    let ns = m.metadata.namespace@;
    let name = m.metadata.name@;
    let prefix = config_prefix_of(ns, name);
    let key = config_key_of(ns, name, generation as nat);
    assert(key.subrange(0, prefix.len() as int) =~= prefix);
}

/// The configuration of a new generation never overwrites a stored one: its key differs
/// from every key listed under the agent's configuration prefix, whatever else is
/// stored there.
pub proof fn law_new_configuration_never_overwrites(
    namespace: Seq<char>,
    name: Seq<char>,
    listed: Seq<Seq<char>>,
    generation: u64,
)
    requires
        next_generation_of(generations_in(config_prefix_of(namespace, name), listed)) == Some(
            generation,
        ),
    ensures
        forall|i: int|
            0 <= i < listed.len() ==> config_key_of(namespace, name, generation as nat)
                != #[trigger] listed[i],
{
    let prefix = config_prefix_of(namespace, name);
    let stored = generations_in(prefix, listed);
    lemma_max_generation(stored);
    assert forall|i: int| 0 <= i < listed.len() implies config_key_of(
        namespace,
        name,
        generation as nat,
    ) != #[trigger] listed[i] by {
        if config_key_of(namespace, name, generation as nat) == listed[i] {
            lemma_key_generation_of(prefix, generation);
            lemma_generation_listed(prefix, listed, i);
            let j = choose|j: int| 0 <= j < stored.len() && stored[j] == generation;
            assert(stored[j] <= max_generation(stored));
        }
    }
}

/// A generation read from a listed key is among the stored generations.
proof fn lemma_generation_listed(prefix: Seq<char>, listed: Seq<Seq<char>>, i: int)
    requires
        0 <= i < listed.len(),
        key_generation(prefix, listed[i]) is Some,
    ensures
        exists|j: int|
            0 <= j < generations_in(prefix, listed).len() && generations_in(prefix, listed)[j]
                == key_generation(prefix, listed[i])->0,
    decreases listed.len(),
{
    let rest = listed.drop_last();
    let g = key_generation(prefix, listed[i])->0;
    if i == listed.len() - 1 {
        let stored = generations_in(prefix, listed);
        assert(stored[stored.len() - 1] == g);
    } else {
        assert(rest[i] == listed[i]);
        lemma_generation_listed(prefix, rest, i);
        let j = choose|j: int|
            0 <= j < generations_in(prefix, rest).len() && generations_in(prefix, rest)[j] == g;
        let stored = generations_in(prefix, listed);
        assert(stored[j] == g);
    }
}

/// Applying a manifest again for the same agent (same namespace and name) targets the
/// same service, task definition family and manifest record, so it updates the agent
/// rather than deploying a second one; and when the generation is planned from the keys
/// stored by then, which hold the earlier configuration, the configuration goes to a new
/// key instead of overwriting the earlier one.
pub proof fn law_reapply_targets_same_agent(
    m1: OABServiceManifest,
    m2: OABServiceManifest,
    g1: u64,
    g2: u64,
    p1: ApplyPlan,
    p2: ApplyPlan,
    listed: Seq<Seq<char>>,
)
    requires
        plans_apply(m1, g1, p1),
        plans_apply(m2, g2, p2),
        m1.metadata.namespace@ == m2.metadata.namespace@,
        m1.metadata.name@ == m2.metadata.name@,
        listed.contains(p1.config_key@),
        next_generation_of(
            generations_in(config_prefix_of(m2.metadata.namespace@, m2.metadata.name@), listed),
        ) == Some(g2),
    ensures
        p1.service.service_name@ == p2.service.service_name@,
        p1.task.family@ == p2.task.family@,
        p1.manifest_key@ == p2.manifest_key@,
        p1.config_key@ != p2.config_key@,
{
    law_new_configuration_never_overwrites(m2.metadata.namespace@, m2.metadata.name@, listed, g2);
    let i = choose|i: int| 0 <= i < listed.len() && listed[i] == p1.config_key@;
    assert(listed[i] != p2.config_key@);
}

/// Every configuration key of an agent, whatever its generation, lies under the
/// agent's configuration prefix.
pub proof fn law_config_keys_under_prefix(namespace: Seq<char>, name: Seq<char>, generation: nat)
    ensures
        config_prefix_of(namespace, name).is_prefix_of(config_key_of(namespace, name, generation)),
{
    let prefix = config_prefix_of(namespace, name);
    let key = config_key_of(namespace, name, generation);
    assert(key.subrange(0, prefix.len() as int) =~= prefix);
}

/// `get` with the bare name of an agent finds the service that `apply` deploys for that
/// agent in namespace `prod`.
pub proof fn law_get_finds_prod_agent(name: Seq<char>)
    requires
        !"oab-"@.is_prefix_of(name),
    ensures
        resolved_name(name) == service_name_of("prod"@, name),
{
    reveal_strlit("oab-");
    reveal_strlit("oab-prod-");
    reveal_strlit("prod");
    reveal_strlit("-");
    assert("oab-prod-"@ + name =~= "oab-"@ + "prod"@ + "-"@ + name);
}

/// `get` with a full service name finds that service, and every service that `apply`
/// deploys has a full service name.
pub proof fn law_get_keeps_service_names(namespace: Seq<char>, name: Seq<char>)
    ensures
        resolved_name(service_name_of(namespace, name)) == service_name_of(namespace, name),
{
    reveal_strlit("oab-");
    let s = service_name_of(namespace, name);
    assert(s.subrange(0, 4) =~= "oab-"@);
}

/// The table of `get` shows the namespace and agent name of a service that `apply`
/// deployed, provided the namespace has no dash (the agent name may have any).
pub proof fn law_service_name_round_trip(namespace: Seq<char>, name: Seq<char>)
    requires
        forall|k: int| 0 <= k < namespace.len() ==> namespace[k] != '-',
    ensures
        name_parts(service_name_of(namespace, name)) == (namespace, name),
{
    reveal_strlit("oab-");
    reveal_strlit("-");
    let s = service_name_of(namespace, name);
    let i: int = 3;
    let j: int = 4 + namespace.len() as int;
    assert(s[i] == '-');
    assert(s[j] == '-');
    assert forall|k: int| 0 <= k < i implies s[k] != '-' by {
        assert(s[k] == "oab-"@[k]);
    }
    assert forall|k: int| i < k < j implies s[k] != '-' by {
        assert(s[k] == namespace[k - 4]);
    }
    assert(dashes_at(s, i, j));
    let (a, b) = choose|a: int, b: int| dashes_at(s, a, b);
    lemma_dashes_unique(s, i, j, a, b);
    assert(s.subrange(i + 1, j) =~= namespace);
    assert(s.subrange(j + 1, s.len() as int) =~= name);
}

/// Selecting the managed services page by page finds the same services, in the same
/// order, as selecting them from all pages at once.
pub proof fn law_pages_concatenate(a: Seq<Seq<char>>, b: Seq<Seq<char>>)
    ensures
        oab_arns(a + b) == oab_arns(a) + oab_arns(b),
    decreases b.len(),
{
    if b.len() == 0 {
        assert(a + b =~= a);
        assert(oab_arns(a) + oab_arns(b) =~= oab_arns(a));
    } else {
        law_pages_concatenate(a, b.drop_last());
        assert((a + b).drop_last() =~= a + b.drop_last());
        assert((a + b).last() == b.last());
        if crate::listing::is_oab_arn(b.last()) {
            assert(oab_arns(a) + oab_arns(b) =~= (oab_arns(a) + oab_arns(b.drop_last())).push(
                b.last(),
            ));
        }
    }
}

/// The batches in which services are described cover the list exactly: each holds one
/// to ten services, and the service at position `t` is at position `t % 10` of batch
/// `t / 10`.
pub proof fn law_batches_cover(s: Seq<Seq<char>>)
    ensures
        forall|k: int|
            0 <= k < batch_count(s.len() as int) ==> {
                let lo = #[trigger] batch_start(k);
                let hi = batch_end(lo, s.len() as int);
                0 < hi - lo <= DESCRIBE_BATCH
            },
        forall|t: int|
            0 <= t < s.len() ==> {
                let k = t / (DESCRIBE_BATCH as int);
                let lo = batch_start(k);
                let hi = batch_end(lo, s.len() as int);
                &&& 0 <= k < batch_count(s.len() as int)
                &&& lo <= t < hi
                &&& s.subrange(lo, hi)[t % (DESCRIBE_BATCH as int)] == #[trigger] s[t]
            },
{
    let n = s.len() as int;
    assert forall|k: int| 0 <= k < batch_count(n) implies {
        let lo = #[trigger] batch_start(k);
        let hi = batch_end(lo, n);
        0 < hi - lo <= DESCRIBE_BATCH
    } by {
        assert(DESCRIBE_BATCH * k < n) by (nonlinear_arith)
            requires
                0 <= k < (n + 9) / 10,
                DESCRIBE_BATCH == 10,
        ;
    }
    assert forall|t: int| 0 <= t < n implies {
        let k = t / (DESCRIBE_BATCH as int);
        let lo = batch_start(k);
        let hi = batch_end(lo, n);
        &&& 0 <= k < batch_count(n)
        &&& lo <= t < hi
        &&& s.subrange(lo, hi)[t % (DESCRIBE_BATCH as int)] == #[trigger] s[t]
    } by {
        let k = t / 10;
        let r = t % 10;
        assert(10 * k + r == t && 0 <= r < 10 && 0 <= k) by (nonlinear_arith)
            requires
                0 <= t,
                k == t / 10,
                r == t % 10,
        ;
        assert(k < (n + 9) / 10) by (nonlinear_arith)
            requires
                10 * k + r == t,
                0 <= r < 10,
                t < n,
        ;
    }
}

/// Every value written into `config.toml` reads back exactly: the escaped text of a
/// basic string followed by its closing quote, and of a multi-line basic string followed
/// by `"""`, reads as the original value, closed right after the escaped text.
pub proof fn law_rendered_values_read_back(value: Seq<char>, rest: Seq<char>)
    ensures
        scan_basic(escaped(value, false) + seq!['"'] + rest, false) == Some(
            (value, escaped(value, false).len() as int),
        ),
        scan_basic(escaped(value, true) + seq!['"', '"', '"'] + rest, true) == Some(
            (value, escaped(value, true).len() as int),
        ),
{
    reveal(scan_basic);
    let t1 = seq!['"'] + rest;
    let t2 = seq!['"', '"', '"'] + rest;
    assert(scan_basic(t1, false) == Some((Seq::<char>::empty(), 0int)));
    assert(scan_basic(t2, true) == Some((Seq::<char>::empty(), 0int)));
    lemma_scan_escaped(value, false, t1);
    lemma_scan_escaped(value, true, t2);
    assert(escaped(value, false) + seq!['"'] + rest =~= escaped(value, false) + t1);
    assert(escaped(value, true) + seq!['"', '"', '"'] + rest =~= escaped(value, true) + t2);
}

/// Every key of an extra channel setting reads back exactly: written bare when TOML
/// allows it, otherwise as a quoted key whose text reads as the key.
pub proof fn law_rendered_keys_read_back(key: Seq<char>, rest: Seq<char>)
    ensures
        is_bare_key(key) ==> key_text(key) == key,
        !is_bare_key(key) ==> key_text(key) == seq!['"'] + escaped(key, false) + seq!['"']
            && scan_basic(escaped(key, false) + seq!['"'] + rest, false) == Some(
            (key, escaped(key, false).len() as int),
        ),
{
    law_rendered_values_read_back(key, rest);
}

/// The whole `config.toml` rendered for any configuration reads back as exactly its
/// items: the `backend` table with its type, model and region; one element of the
/// `channels` array per channel, in order, with its type and string settings; the
/// `steering` table with the system prompt followed by one line break; the `features`
/// table with `stt` and `cronjob`.
pub proof fn law_rendered_config_reads_back(config: AgentConfig)
    ensures
        parse_doc(config_toml(config)) == Some(config_items(config)),
{
    let empty_r = Seq::<TomlItem>::empty();
    let empty_t = Seq::<char>::empty();
    assert(parse_doc(empty_t) == Some(empty_r)) by {
        reveal(parse_doc);
    }
    lemma_features(config.features, empty_t, empty_r);
    let r1 = features_section(config.features) + empty_t;
    let i1 = features_items(config.features) + empty_r;
    lemma_steering(config.steering, r1, i1);
    let r2 = steering_section(config.steering) + r1;
    let i2 = steering_items(config.steering) + i1;
    lemma_channels(config.channels@, r2, i2);
    let r3 = channels_section(config.channels@) + r2;
    let i3 = channels_items(config.channels@) + i2;
    lemma_backend(config.backend, r3, i3);
    assert(config_toml(config) =~= backend_section(config.backend) + r3);
    assert(config_items(config) =~= backend_items(config.backend) + i3);
}


/// `validate` accepts exactly the manifests that keep its seven rules: api version
/// `oab.dev/v1`, kind `OABService`, a name and a namespace that are not empty (of any
/// characters), capacity provider `FARGATE` or `FARGATE_SPOT`, at least one subnet and at
/// least one security group. Each error names a rule that the manifest breaks, and a
/// manifest that keeps every rule gets none.
pub proof fn law_validate_rules(m: OABServiceManifest)
    ensures
        m.is_valid() <==> {
            &&& m.api_version@ == "oab.dev/v1"@
            &&& m.kind@ == "OABService"@
            &&& m.metadata.name@.len() > 0
            &&& m.metadata.namespace@.len() > 0
            &&& (m.spec.capacity_provider@ == "FARGATE"@ || m.spec.capacity_provider@
                == "FARGATE_SPOT"@)
            &&& m.spec.networking.subnets@.len() > 0
            &&& m.spec.networking.security_groups@.len() > 0
        },
        forall|e: crate::manifest::ManifestError| #[trigger]
            m.rejected_with(e) ==> match e {
                crate::manifest::ManifestError::UnsupportedApiVersion(v) => v@ == m.api_version@
                    && m.api_version@ != "oab.dev/v1"@,
                crate::manifest::ManifestError::UnsupportedKind(k) => k@ == m.kind@ && m.kind@
                    != "OABService"@,
                crate::manifest::ManifestError::MissingName => m.metadata.name@.len() == 0,
                crate::manifest::ManifestError::MissingNamespace => m.metadata.namespace@.len()
                    == 0,
                crate::manifest::ManifestError::InvalidCapacityProvider => m.spec.capacity_provider@
                    != "FARGATE"@ && m.spec.capacity_provider@ != "FARGATE_SPOT"@,
                crate::manifest::ManifestError::NoSubnets => m.spec.networking.subnets@.len() == 0,
                crate::manifest::ManifestError::NoSecurityGroups => m.spec.networking.security_groups@.len()
                    == 0,
            },
{
}

/// The agent container's environment is `NAMESPACE`, `NAME` and `CONFIG_S3_PATH` with the
/// given configuration address, in that order, whether or not the manifest names a
/// bootstrap archive; `BOOTSTRAP_FROM` follows exactly when it does.
pub proof fn law_environment(m: OABServiceManifest, config_path: Seq<char>)
    ensures
        ({
            let env = crate::deploy::environment_of(m, config_path);
            &&& env.len() == if m.spec.bootstrap_from is Some {
                4int
            } else {
                3int
            }
            &&& env[0] == ("NAMESPACE"@, m.metadata.namespace@)
            &&& env[1] == ("NAME"@, m.metadata.name@)
            &&& env[2] == ("CONFIG_S3_PATH"@, config_path)
            &&& m.spec.bootstrap_from matches Some(b) ==> env[3] == ("BOOTSTRAP_FROM"@, b@)
        }),
{
}

/// In the plan of `apply`, `CONFIG_S3_PATH` is always the address of the uploaded
/// configuration, `s3://oab-control-plane/config/{namespace}/{name}/{generation}/config.toml`,
/// and the configuration is uploaded under exactly that key.
pub proof fn law_plan_config_address(m: OABServiceManifest, generation: u64, plan: ApplyPlan)
    requires
        plans_apply(m, generation, plan),
    ensures
        ({
            let env = crate::deploy::env_pairs(plan.task.environment@);
            let key = "config/"@ + m.metadata.namespace@ + "/"@ + m.metadata.name@ + "/"@
                + crate::text::nat_decimal(generation as nat) + "/config.toml"@;
            &&& env.len() >= 3
            &&& env[2] == ("CONFIG_S3_PATH"@, "s3://oab-control-plane/"@ + key)
            &&& plan.config_key@ == key
        }),
{
    reveal_strlit("s3://oab-control-plane/");
    reveal_strlit("s3://");
    reveal_strlit("oab-control-plane");
    reveal_strlit("/");
    law_environment(m, crate::deploy::config_path_of(m, generation));
    let key = "config/"@ + m.metadata.namespace@ + "/"@ + m.metadata.name@ + "/"@
        + crate::text::nat_decimal(generation as nat) + "/config.toml"@;
    assert(config_key_of(m.metadata.namespace@, m.metadata.name@, generation as nat) =~= key);
    assert(crate::deploy::config_path_of(m, generation) =~= "s3://oab-control-plane/"@ + key);
}

/// A file is read as a manifest exactly when its extension is `yaml` or `yml`.
pub proof fn law_manifest_extensions(extension: Seq<char>)
    ensures
        crate::deploy::is_manifest_extension(Some(extension)) <==> (extension == "yaml"@
            || extension == "yml"@),
        !crate::deploy::is_manifest_extension(None),
{
}

/// The row of the service `oab-{namespace}-{name}` (a namespace without a dash) begins
/// with the whole agent name, however long, padded with spaces to 12 characters, then a
/// space and the namespace.
#[verifier::rlimit(50)]
pub proof fn law_row_shows_whole_name(
    s: crate::listing::ServiceSummary,
    namespace: Seq<char>,
    name: Seq<char>,
)
    requires
        forall|k: int| 0 <= k < namespace.len() ==> namespace[k] != '-',
        s.service_name matches Some(n) && n@ == "oab-"@ + namespace + "-"@ + name,
    ensures
        ({
            let row = crate::listing::summary_row(s);
            let w = if name.len() < 12 {
                12int
            } else {
                name.len() as int
            };
            &&& row.len() > w + namespace.len()
            &&& row.subrange(0, name.len() as int) == name
            &&& forall|k: int| name.len() <= k <= w ==> row[k] == ' '
            &&& row.subrange(w + 1, w + 1 + namespace.len()) == namespace
        }),
{
    reveal_strlit(" ");
    law_service_name_round_trip(namespace, name);
    let full = crate::listing::text_or(s.service_name, "-"@);
    assert(full == service_name_of(namespace, name));
    let row = crate::listing::summary_row(s);
    let w = if name.len() < 12 {
        12int
    } else {
        name.len() as int
    };
    let first = crate::text::padded(name, 12);
    let second = crate::text::padded(namespace, 10);
    assert(first.len() == w);
    let head = first + " "@ + second;
    let tail = row.subrange(head.len() as int, row.len() as int);
    assert(row =~= head + tail);
    assert(head.subrange(0, name.len() as int) =~= name);
    assert forall|k: int| name.len() <= k <= w implies row[k] == ' ' by {
        assert(row[k] == head[k]);
    }
    assert(head.subrange(w + 1, w + 1 + namespace.len()) =~= namespace);
}

/// Every row ends with the service's status after a space, `UNKNOWN` when it has none.
pub proof fn law_row_ends_with_status(s: crate::listing::ServiceSummary)
    ensures
        ({
            let row = crate::listing::summary_row(s);
            let status = match s.status {
                Some(t) => t@,
                None => "UNKNOWN"@,
            };
            &&& row.len() > status.len()
            &&& row[row.len() - status.len() - 1] == ' '
            &&& row.subrange(row.len() - status.len(), row.len() as int) == status
        }),
{
    reveal_strlit(" ");
    let row = crate::listing::summary_row(s);
    let status = crate::listing::text_or(s.status, "UNKNOWN"@);
    let head = row.subrange(0, row.len() - status.len());
    assert(row =~= head + status);
    assert(row.subrange(row.len() - status.len(), row.len() as int) =~= status);
}

} // verus!
