//! Decisions of the node daemon: the roles it is started with, the dashboard files it
//! serves, the manifests it runs and its answers to job offers.
use vstd::prelude::*;
use crate::gateway::str_views;
use crate::resources::{NodeRole, role_name, role_named};
use crate::runtime::Manifest;
use crate::text::{chars_of, is_white_space, lemma_split_nonempty, signed_decimal, split_bounds, split_on, str_eq, string_of_range, trim, trim_end, trim_start, trim_chars, push_signed_decimal};
use crate::gossip::{TOPIC_SLOTS_ANNOUNCE, TOPIC_NODE_STATUS, TOPIC_REPUTATION, TOPIC_TRUST_EDGE, TOPIC_SOCIAL_POST, TOPIC_SOCIAL_PROFILE, TOPIC_SOCIAL_FOLLOW};

verus! {

/// Length of a swarm key, in bytes.
pub const SWARM_KEY_LEN: usize = 32;
/// Seconds a locally started run may take.
pub const LOCAL_RUN_SECS: u64 = 60;

/// The role that a role name stands for: the named role, or compute for an unknown name.
pub open spec fn role_or_compute(name: Seq<char>) -> NodeRole {
    match role_named(trim(name)) {
        Some(r) => r,
        None => NodeRole::Compute,
    }
}

/// The roles of a comma-separated list: compute alone for an empty list.
pub open spec fn spec_parse_roles(roles: Seq<char>) -> Seq<NodeRole> {
    if roles.len() == 0 {
        seq![NodeRole::Compute]
    } else {
        split_on(roles, ',').map_values(|p: Seq<char>| role_or_compute(p))
    }
}

/// The roles given on the command line as a comma-separated list; blanks around a name are
/// ignored and an unknown name stands for compute.
pub fn parse_roles(roles: &str) -> (r: Vec<NodeRole>)
    ensures
        r@ == spec_parse_roles(roles@),
{
    if roles.is_empty() {
        let r = vec![NodeRole::Compute];
        assert(r@ =~= seq![NodeRole::Compute]);
        return r;
    }
    let chars = chars_of(roles);
    let (starts, ends) = split_bounds(&chars, ',');
    let ghost parts = split_on(roles@, ',');
    let mut r: Vec<NodeRole> = Vec::new();
    let n = starts.len();
    let mut k: usize = 0;
    while k < n
        invariant
            k <= n == starts@.len(),
            chars@ == roles@,
            parts == split_on(roles@, ','),
            starts@.len() == ends@.len() == parts.len(),
            forall|j: int| 0 <= j < starts@.len() ==> #[trigger] starts@[j] <= ends@[j] <= chars@.len(),
            forall|j: int| 0 <= j < starts@.len() ==> #[trigger] parts[j] == chars@.subrange(starts@[j] as int, ends@[j] as int),
            r@ == parts.take(k as int).map_values(|p: Seq<char>| role_or_compute(p)),
        decreases n - k,
    {
        assert(starts@[k as int] <= ends@[k as int] <= chars@.len());
        let piece = trim_chars(&chars, starts[k], ends[k]);
        let name: String = string_of_range(&piece, 0, piece.len());
        assert(piece@.subrange(0, piece@.len() as int) =~= piece@);
        let role = match NodeRole::parse(name.as_str()) {
            Some(role) => role,
            None => NodeRole::Compute,
        };
        assert(parts[k as int] == chars@.subrange(starts@[k as int] as int, ends@[k as int] as int));
        r.push(role);
        assert(parts.take(k + 1) =~= parts.take(k as int).push(parts[k as int]));
        assert(r@ =~= parts.take(k + 1).map_values(|p: Seq<char>| role_or_compute(p)));
        k = k + 1;
    }
    assert(parts.take(starts@.len() as int) =~= parts);
    r
}

/// The names of `roles`, in order.
pub open spec fn role_names_of(roles: Seq<NodeRole>) -> Seq<Seq<char>> {
    roles.map_values(|r: NodeRole| role_name(r))
}

/// The names of `roles`, in order.
pub fn role_names(roles: &Vec<NodeRole>) -> (names: Vec<String>)
    ensures
        str_views(names@) == role_names_of(roles@),
{
    let mut names: Vec<String> = Vec::new();
    for i in 0..roles.len()
        invariant
            str_views(names@) == role_names_of(roles@.take(i as int)),
    {
        let ghost before = names@;
        let name = roles[i].as_str().to_owned();
        assert(name@ == role_name(roles@[i as int]));
        names.push(name);
        assert(names@ == before.push(name));
        assert(roles@.take(i + 1) =~= roles@.take(i as int).push(roles@[i as int]));
        assert(str_views(names@) =~= str_views(before).push(name@));
        assert(role_names_of(roles@.take(i + 1)) =~= role_names_of(roles@.take(i as int)).push(
            role_name(roles@[i as int]),
        ));
    }
    assert(roles@.take(roles@.len() as int) =~= roles@);
    names
}

/// The slots a node offers: the most that any of its roles allows, or one when it has no role.
pub fn total_slots(slots_per_role: &Vec<u32>) -> (n: u32)
    ensures
        slots_per_role@.len() == 0 ==> n == 1,
        slots_per_role@.len() > 0 ==> slots_per_role@.contains(n) && forall|i: int|
            0 <= i < slots_per_role@.len() ==> #[trigger] slots_per_role@[i] <= n,
{
    if slots_per_role.len() == 0 {
        return 1;
    }
    let mut best: u32 = slots_per_role[0];
    let mut at: usize = 0;
    for i in 1..slots_per_role.len()
        invariant
            at < slots_per_role@.len(),
            slots_per_role@[at as int] == best,
            forall|j: int| 0 <= j < i ==> #[trigger] slots_per_role@[j] <= best,
    {
        if slots_per_role[i] > best {
            best = slots_per_role[i];
            at = i;
        }
    }
    assert(slots_per_role@[at as int] == best);
    best
}

/// The first 32 bytes of a swarm key file, or nothing when it is shorter.
pub fn swarm_key_from_bytes(data: &Vec<u8>) -> (key: Option<Vec<u8>>)
    ensures
        data@.len() >= SWARM_KEY_LEN ==> (key matches Some(k) && k@ == data@.take(SWARM_KEY_LEN as int)),
        data@.len() < SWARM_KEY_LEN ==> key is None,
{
    if data.len() < SWARM_KEY_LEN {
        return None;
    }
    let mut k: Vec<u8> = Vec::new();
    for i in 0..SWARM_KEY_LEN
        invariant
            data@.len() >= SWARM_KEY_LEN,
            k@ == data@.take(i as int),
    {
        k.push(data[i]);
        assert(k@ =~= data@.take(i + 1));
    }
    Some(k)
}

/// The dashboard file asked for by a request path: `index.html` for the root.
pub fn asset_filename(path: &str) -> (f: String)
    ensures
        f@ == (if path@.len() == 0 || path@ == "/"@ { "index.html"@ } else { path@ }),
{
    if path.is_empty() || str_eq(path, "/") {
        "index.html".to_owned()
    } else {
        path.to_owned()
    }
}

/// The text after the last `.` of a file name, or the whole name when it has none.
pub open spec fn extension(name: Seq<char>) -> Seq<char> {
    split_on(name, '.').last()
}

/// The content type served for a file with extension `ext`.
pub open spec fn content_type_for(ext: Seq<char>) -> Seq<char> {
    if ext == "html"@ {
        "text/html; charset=utf-8"@
    } else if ext == "css"@ {
        "text/css; charset=utf-8"@
    } else if ext == "js"@ {
        "application/javascript; charset=utf-8"@
    } else if ext == "svg"@ {
        "image/svg+xml"@
    } else if ext == "png"@ {
        "image/png"@
    } else if ext == "ico"@ {
        "image/x-icon"@
    } else {
        "application/octet-stream"@
    }
}

/// The content type served for the dashboard file `filename`.
pub fn content_type(filename: &str) -> (t: &'static str)
    ensures
        t@ == content_type_for(extension(filename@)),
{
    let chars = chars_of(filename);
    let (starts, ends) = split_bounds(&chars, '.');
    proof { crate::text::lemma_split_nonempty(filename@, '.'); }
    let last = starts.len() - 1;
    assert(0 <= last < starts@.len());
    assert(starts@[last as int] <= ends@[last as int]);
    assert(ends@[last as int] <= chars@.len());
    let ext = string_of_range(&chars, starts[last], ends[last]);
    assert(ext@ == extension(filename@));
    let e = ext.as_str();
    if str_eq(e, "html") {
        "text/html; charset=utf-8"
    } else if str_eq(e, "css") {
        "text/css; charset=utf-8"
    } else if str_eq(e, "js") {
        "application/javascript; charset=utf-8"
    } else if str_eq(e, "svg") {
        "image/svg+xml"
    } else if str_eq(e, "png") {
        "image/png"
    } else if str_eq(e, "ico") {
        "image/x-icon"
    } else {
        "application/octet-stream"
    }
}

/// The manifest of a job offered over the network: its image run from `_start`, without
/// arguments.
pub fn offer_manifest(manifest_cid: &str, max_duration_secs: u64, slots_required: u32) -> (m: Manifest)
    ensures
        m.image_cid@ == manifest_cid@,
        m.entrypoint@ == "_start"@,
        m.args@.len() == 0,
        m.max_duration_secs == max_duration_secs,
        m.slots_required == slots_required,
{
    Manifest {
        image_cid: manifest_cid.to_owned(),
        entrypoint: "_start".to_owned(),
        args: Vec::new(),
        max_duration_secs,
        slots_required,
    }
}

/// The manifest of a local run of entry point `entrypoint` in `image`, or in the image
/// named like the entry point when none is given; it may take a minute on one slot.
pub fn local_run_manifest(entrypoint: &str, image: Option<String>) -> (m: Manifest)
    ensures
        m.image_cid@ == (match image {
            Some(i) => i@,
            None => entrypoint@,
        }),
        m.entrypoint@ == entrypoint@,
        m.args@.len() == 0,
        m.max_duration_secs == LOCAL_RUN_SECS,
        m.slots_required == 1,
{
    let image_cid = match image {
        Some(i) => i,
        None => entrypoint.to_owned(),
    };
    Manifest {
        image_cid,
        entrypoint: entrypoint.to_owned(),
        args: Vec::new(),
        max_duration_secs: LOCAL_RUN_SECS,
        slots_required: 1,
    }
}

/// What became of a job offer.
#[derive(Debug)]
pub enum JobOutcome {
    /// The scheduler refused it, for this reason.
    Refused(String),
    /// It ran and exited with this code.
    Exited(i32),
    /// It was accepted but its run failed, with this message.
    Failed(String),
}

/// The answer sent back for a job offer.
#[derive(Debug)]
pub struct JobResponse {
    pub job_id: String,
    pub accepted: bool,
    pub reason: Option<String>,
    pub result_cid: Option<String>,
}

/// The answer for job `job_id`: a refusal or a failed run is not accepted and carries its
/// reason; a completed run is accepted and its result is `exit:<code>`.
pub fn job_response(job_id: String, outcome: JobOutcome) -> (r: JobResponse)
    ensures
        r.job_id@ == job_id@,
        match outcome {
            JobOutcome::Refused(m) => !r.accepted && (r.reason matches Some(x) && x@ == m@) && r.result_cid is None,
            JobOutcome::Failed(m) => !r.accepted && (r.reason matches Some(x) && x@ == m@) && r.result_cid is None,
            JobOutcome::Exited(code) => r.accepted && r.reason is None && (r.result_cid matches Some(x) && x@
                == "exit:"@ + signed_decimal(code as int)),
        },
{
    match outcome {
        JobOutcome::Refused(m) => JobResponse { job_id, accepted: false, reason: Some(m), result_cid: None },
        JobOutcome::Failed(m) => JobResponse { job_id, accepted: false, reason: Some(m), result_cid: None },
        JobOutcome::Exited(code) => {
            let mut cid = "exit:".to_owned();
            push_signed_decimal(&mut cid, code as i64);
            JobResponse { job_id, accepted: true, reason: None, result_cid: Some(cid) }
        },
    }
}

/// The names of all topics a node subscribes to, in subscription order.
pub fn all_topic_names() -> (names: Vec<&'static str>)
    ensures
        names@.map_values(|s: &str| s@) == seq![
            TOPIC_SLOTS_ANNOUNCE@,
            TOPIC_NODE_STATUS@,
            TOPIC_REPUTATION@,
            TOPIC_TRUST_EDGE@,
            TOPIC_SOCIAL_POST@,
            TOPIC_SOCIAL_PROFILE@,
            TOPIC_SOCIAL_FOLLOW@,
        ],
{
    let names = vec![
        TOPIC_SLOTS_ANNOUNCE,
        TOPIC_NODE_STATUS,
        TOPIC_REPUTATION,
        TOPIC_TRUST_EDGE,
        TOPIC_SOCIAL_POST,
        TOPIC_SOCIAL_PROFILE,
        TOPIC_SOCIAL_FOLLOW,
    ];
    assert(names@.map_values(|s: &str| s@) =~= seq![
        TOPIC_SLOTS_ANNOUNCE@,
        TOPIC_NODE_STATUS@,
        TOPIC_REPUTATION@,
        TOPIC_TRUST_EDGE@,
        TOPIC_SOCIAL_POST@,
        TOPIC_SOCIAL_PROFILE@,
        TOPIC_SOCIAL_FOLLOW@,
    ]);
    names
}

/// `names` joined into one text, with `sep` between consecutive names.
pub open spec fn join_names(names: Seq<Seq<char>>, sep: char) -> Seq<char>
    decreases names.len(),
{
    if names.len() == 0 {
        Seq::empty()
    } else if names.len() == 1 {
        names[0]
    } else {
        join_names(names.drop_last(), sep) + seq![sep] + names.last()
    }
}

/// Text without `sep` splits into itself alone.
proof fn lemma_split_without_sep(t: Seq<char>, sep: char)
    requires
        !t.contains(sep),
    ensures
        split_on(t, sep) == seq![t],
    decreases t.len(),
{
    if t.len() == 0 {
        assert(t =~= Seq::<char>::empty());
    } else {
        let t0 = t.drop_last();
        assert(!t0.contains(sep)) by {
            if t0.contains(sep) {
                let k = choose|k: int| 0 <= k < t0.len() && t0[k] == sep;
                assert(t[k] == sep);
            }
        }
        assert(t.last() != sep) by {
            assert(t[t.len() - 1] == t.last());
        }
        lemma_split_without_sep(t0, sep);
        assert(t0.push(t.last()) =~= t);
        assert(seq![t0].update(0, t0.push(t.last())) =~= seq![t]);
    }
}

/// Splitting `s`, a separator and text `t` without separators gives the pieces of `s`
/// followed by `t`.
proof fn lemma_split_after_sep(s: Seq<char>, t: Seq<char>, sep: char)
    requires
        !t.contains(sep),
    ensures
        split_on(s + seq![sep] + t, sep) == split_on(s, sep).push(t),
    decreases t.len(),
{
    if t.len() == 0 {
        assert(s + seq![sep] + t =~= s.push(sep));
        assert((s + seq![sep] + t).drop_last() =~= s);
        assert(t =~= Seq::<char>::empty());
    } else {
        let t0 = t.drop_last();
        assert(!t0.contains(sep)) by {
            if t0.contains(sep) {
                let k = choose|k: int| 0 <= k < t0.len() && t0[k] == sep;
                assert(t[k] == sep);
            }
        }
        lemma_split_after_sep(s, t0, sep);
        let whole = s + seq![sep] + t;
        assert(whole.drop_last() =~= s + seq![sep] + t0);
        assert(whole.last() == t.last());
        assert(t.last() != sep) by {
            assert(t[t.len() - 1] == t.last());
        }
        lemma_split_nonempty(s, sep);
        assert(t0.push(t.last()) =~= t);
        assert(split_on(s, sep).push(t0).update(split_on(s, sep).len() as int, t0.push(t.last()))
            =~= split_on(s, sep).push(t));
    }
}

/// Joining names that hold no separator and splitting the result gives the names back.
pub proof fn lemma_split_join(names: Seq<Seq<char>>, sep: char)
    requires
        names.len() >= 1,
        forall|i: int| 0 <= i < names.len() ==> !(#[trigger] names[i]).contains(sep),
    ensures
        split_on(join_names(names, sep), sep) == names,
    decreases names.len(),
{
    if names.len() == 1 {
        lemma_split_without_sep(names[0], sep);
        assert(seq![names[0]] =~= names);
    } else {
        let init = names.drop_last();
        assert forall|i: int| 0 <= i < init.len() implies !(#[trigger] init[i]).contains(sep) by {
            assert(init[i] == names[i]);
        }
        lemma_split_join(init, sep);
        assert(!names.last().contains(sep)) by {
            assert(names[names.len() - 1] == names.last());
        }
        lemma_split_after_sep(join_names(init, sep), names.last(), sep);
        assert(init.push(names.last()) =~= names);
    }
}

/// A role's name is not empty, holds no comma and has no surrounding blanks.
proof fn lemma_role_name_plain(r: NodeRole)
    ensures
        role_name(r).len() > 0,
        !role_name(r).contains(','),
        trim(role_name(r)) == role_name(r),
        role_or_compute(role_name(r)) == r,
{
    reveal_strlit("compute");
    reveal_strlit("storage");
    reveal_strlit("validation");
    reveal_strlit("ai");
    reveal_strlit("social");
    let n = role_name(r);
    assert(!is_white_space(n[0]) && !is_white_space(n.last()));
    assert(trim_start(n) == n);
    assert(trim_end(n) == n);
    crate::resources::law_role_name_parses_back(r);
    assert(!n.contains(',')) by {
        if n.contains(',') {
            let k = choose|k: int| 0 <= k < n.len() && n[k] == ',';
            assert(n[k] == ',');
        }
    }
}

/// Law: a non-empty list of roles, written as their names joined by commas, is parsed back
/// into the same roles.
pub proof fn law_role_list_round_trip(roles: Seq<NodeRole>)
    requires
        roles.len() >= 1,
    ensures
        spec_parse_roles(join_names(role_names_of(roles), ',')) == roles,
{
    let names = role_names_of(roles);
    assert forall|i: int| 0 <= i < names.len() implies !(#[trigger] names[i]).contains(',') by {
        lemma_role_name_plain(roles[i]);
    }
    lemma_split_join(names, ',');
    assert forall|i: int| 0 <= i < names.len() implies (#[trigger] names[i]).len() > 0 by {
        lemma_role_name_plain(roles[i]);
    }
    lemma_join_nonempty(names);
    assert forall|i: int| 0 <= i < roles.len() implies role_or_compute(#[trigger] names[i]) == roles[i] by {
        lemma_role_name_plain(roles[i]);
    }
    assert(split_on(join_names(names, ','), ',').map_values(|p: Seq<char>| role_or_compute(p)) =~= roles);
}

/// Joining names of which the first is not empty gives a text that is not empty.
proof fn lemma_join_nonempty(names: Seq<Seq<char>>)
    requires
        names.len() >= 1,
        forall|i: int| 0 <= i < names.len() ==> (#[trigger] names[i]).len() > 0,
    ensures
        join_names(names, ',').len() > 0,
    decreases names.len(),
{
    if names.len() > 1 {
        assert(names.drop_last()[0] == names[0]);
        lemma_join_nonempty(names.drop_last());
    }
}

} // verus!
