//! Planning of file copies between hosts.

use vstd::prelude::*;

use crate::text::split_once;
use crate::transfer::TransferError;

verus! {

/// One step of a copy. The steps are performed in order, and the first that fails ends the copy.
#[derive(Debug, PartialEq, Eq)]
pub enum ScpStep<S> {
    /// Connect to the host that every file goes to.
    ConnectTarget { remote: S },
    /// Connect to the host that the next file comes from.
    ConnectSource { remote: S },
    /// Send a local file or directory to the target host.
    Upload { source: S, target: S },
    /// Fetch a file or directory from the source host.
    Download { source: S, target: S },
    /// Copy a local file to another local file.
    Copy { source: S, target: S },
    /// Give up with an error.
    Refuse { error: TransferError },
}

impl View for ScpStep<String> {
    type V = ScpStep<Seq<char>>;

    open spec fn view(&self) -> ScpStep<Seq<char>> {
        match *self {
            ScpStep::ConnectTarget { remote } => ScpStep::ConnectTarget { remote: remote@ },
            ScpStep::ConnectSource { remote } => ScpStep::ConnectSource { remote: remote@ },
            ScpStep::Upload { source, target } => ScpStep::Upload {
                source: source@,
                target: target@,
            },
            ScpStep::Download { source, target } => ScpStep::Download {
                source: source@,
                target: target@,
            },
            ScpStep::Copy { source, target } => ScpStep::Copy {
                source: source@,
                target: target@,
            },
            ScpStep::Refuse { error } => ScpStep::Refuse { error },
        }
    }
}

/// The contents of a list of steps.
pub open spec fn step_views(steps: Seq<ScpStep<String>>) -> Seq<ScpStep<Seq<char>>> {
    steps.map_values(|step: ScpStep<String>| step@)
}

/// Whether an argument names a file on a remote host.
pub open spec fn is_remote(argument: Seq<char>) -> bool {
    crate::text::split_first(argument, ':') is Some
}

/// The remote host that an argument names.
pub open spec fn remote_of(argument: Seq<char>) -> Seq<char>
    recommends
        is_remote(argument),
{
    match crate::text::split_first(argument, ':') {
        Some((remote, path)) => remote,
        None => Seq::empty(),
    }
}

/// The path that an argument names, on whichever host.
pub open spec fn path_of(argument: Seq<char>) -> Seq<char> {
    match crate::text::split_first(argument, ':') {
        Some((remote, path)) => path,
        None => argument,
    }
}

/// The steps that copy one source.
pub open spec fn source_steps(source: Seq<char>, target: Seq<char>) -> Seq<ScpStep<Seq<char>>> {
    if is_remote(source) {
        seq![
            ScpStep::ConnectSource { remote: remote_of(source) },
            if is_remote(target) {
                ScpStep::Refuse { error: TransferError::BetweenRemoteHosts }
            } else {
                ScpStep::Download { source: path_of(source), target: path_of(target) }
            },
        ]
    } else if is_remote(target) {
        seq![ScpStep::Upload { source: path_of(source), target: path_of(target) }]
    } else {
        seq![ScpStep::Copy { source: path_of(source), target: path_of(target) }]
    }
}

/// The steps that copy a list of sources, up to the first that cannot be copied.
pub open spec fn sources_steps(
    sources: Seq<Seq<char>>,
    target: Seq<char>,
) -> Seq<ScpStep<Seq<char>>>
    decreases sources.len(),
{
    if sources.len() == 0 {
        Seq::empty()
    } else if is_remote(sources[0]) && is_remote(target) {
        source_steps(sources[0], target)
    } else {
        source_steps(sources[0], target) + sources_steps(sources.skip(1), target)
    }
}

/// The steps of a whole copy.
pub open spec fn scp_steps(sources: Seq<Seq<char>>, target: Seq<char>) -> Seq<ScpStep<Seq<char>>> {
    (if is_remote(target) {
        seq![ScpStep::ConnectTarget { remote: remote_of(target) }]
    } else {
        Seq::empty()
    }) + sources_steps(sources, target)
}

/// Plans the copy of `sources` to `target`.
///
/// Every argument is either a local path or a path on a remote host, in the form `remote:path`. A
/// local copy is planned if neither the source nor the target is remote, and two remote arguments
/// are refused.
pub fn plan_scp_transfer(sources: &[String], target: &str) -> (steps: Vec<ScpStep<String>>)
    ensures
        step_views(steps@) == scp_steps(crate::text::texts(sources@), target@),
{
    let mut steps: Vec<ScpStep<String>> = Vec::new();
    let split_target = split_once(target, ':');
    let target_is_remote = split_target.is_some();
    let target_path: &str;
    match split_target {
        Some((remote, path)) => {
            steps.push(ScpStep::ConnectTarget { remote: remote.to_owned() });
            target_path = path;
        },
        None => {
            target_path = target;
        },
    }
    let ghost start = step_views(steps@);
    assert(start =~= if is_remote(target@) {
        seq![ScpStep::ConnectTarget { remote: remote_of(target@) }]
    } else {
        Seq::empty()
    });
    let ghost total = scp_steps(crate::text::texts(sources@), target@);
    assert(crate::text::texts(sources@).skip(0) =~= crate::text::texts(sources@));
    let mut i: usize = 0;
    while i < sources.len()
        invariant
            i <= sources@.len(),
            target_is_remote == is_remote(target@),
            target_path@ == path_of(target@),
            total == scp_steps(crate::text::texts(sources@), target@),
            step_views(steps@) + sources_steps(crate::text::texts(sources@).skip(i as int), target@) == total,
        decreases sources.len() - i,
    {
        let ghost rest = crate::text::texts(sources@).skip(i as int);
        let ghost before = step_views(steps@);
        let source = sources[i].as_str();
        assert(rest[0] == source@);
        assert(rest.skip(1) =~= crate::text::texts(sources@).skip(i + 1));
        match split_once(source, ':') {
            Some((remote, path)) => {
                steps.push(ScpStep::ConnectSource { remote: remote.to_owned() });
                if target_is_remote {
                    steps.push(ScpStep::Refuse { error: TransferError::BetweenRemoteHosts });
                    assert(step_views(steps@) =~= before + source_steps(source@, target@));
                    return steps;
                }
                steps.push(
                    ScpStep::Download { source: path.to_owned(), target: target_path.to_owned() },
                );
            },
            None => {
                if target_is_remote {
                    steps.push(
                        ScpStep::Upload {
                            source: source.to_owned(),
                            target: target_path.to_owned(),
                        },
                    );
                } else {
                    steps.push(
                        ScpStep::Copy { source: source.to_owned(), target: target_path.to_owned() },
                    );
                }
            },
        }
        assert(step_views(steps@) =~= before + source_steps(source@, target@));
        assert(before + (source_steps(source@, target@) + sources_steps(rest.skip(1), target@))
            =~= step_views(steps@) + sources_steps(rest.skip(1), target@));
        i = i + 1;
    }
    assert(step_views(steps@) =~= total);
    steps
}

/// A copy is refused exactly if its target is remote and one of its sources is remote too.
pub proof fn law_scp_refusal(sources: Seq<Seq<char>>, target: Seq<char>)
    ensures
        (exists|i: int|
            0 <= i < scp_steps(sources, target).len() && scp_steps(sources, target)[i] is Refuse)
            <==> is_remote(target) && (exists|i: int|
            0 <= i < sources.len() && is_remote(#[trigger] sources[i])),
{
    lemma_sources_refusal(sources, target);
    let steps = scp_steps(sources, target);
    let tail = sources_steps(sources, target);
    let k = steps.len() - tail.len();
    if exists|i: int| 0 <= i < steps.len() && steps[i] is Refuse {
        let i = choose|i: int| 0 <= i < steps.len() && steps[i] is Refuse;
        assert(tail[i - k] is Refuse);
    }
    if exists|i: int| 0 <= i < tail.len() && tail[i] is Refuse {
        let i = choose|i: int| 0 <= i < tail.len() && tail[i] is Refuse;
        assert(steps[i + k] is Refuse);
    }
}

proof fn lemma_sources_refusal(sources: Seq<Seq<char>>, target: Seq<char>)
    ensures
        (exists|i: int|
            0 <= i < sources_steps(sources, target).len() && sources_steps(
                sources,
                target,
            )[i] is Refuse) <==> is_remote(target) && (exists|i: int|
            0 <= i < sources.len() && is_remote(#[trigger] sources[i])),
    decreases sources.len(),
{
    if sources.len() > 0 {
        let head = source_steps(sources[0], target);
        let tail = sources_steps(sources.skip(1), target);
        let steps = sources_steps(sources, target);
        lemma_sources_refusal(sources.skip(1), target);
        if is_remote(sources[0]) && is_remote(target) {
            assert(steps[1] is Refuse);
        } else {
            assert forall|i: int| 0 <= i < head.len() implies !(head[i] is Refuse) by {}
            if exists|i: int| 0 <= i < steps.len() && steps[i] is Refuse {
                let i = choose|i: int| 0 <= i < steps.len() && steps[i] is Refuse;
                assert(i >= head.len());
                assert(tail[i - head.len()] is Refuse);
                let j = choose|j: int|
                    0 <= j < sources.skip(1).len() && is_remote(#[trigger] sources.skip(1)[j]);
                assert(is_remote(sources[j + 1]));
            }
            if is_remote(target) && exists|j: int|
                0 <= j < sources.len() && is_remote(#[trigger] sources[j]) {
                let j = choose|j: int| 0 <= j < sources.len() && is_remote(#[trigger] sources[j]);
                assert(is_remote(sources.skip(1)[j - 1]));
                let i = choose|i: int| 0 <= i < tail.len() && tail[i] is Refuse;
                assert(steps[i + head.len()] is Refuse);
            }
        }
    }
}

/// In a copy to a remote host files are only ever sent, and in a copy to the local host files are
/// only ever fetched or copied locally.
pub proof fn law_scp_direction(sources: Seq<Seq<char>>, target: Seq<char>, i: int)
    requires
        0 <= i < scp_steps(sources, target).len(),
    ensures
        scp_steps(sources, target)[i] is Upload ==> is_remote(target),
        scp_steps(sources, target)[i] is Download ==> !is_remote(target),
        scp_steps(sources, target)[i] is Copy ==> !is_remote(target),
{
    let tail = sources_steps(sources, target);
    let k = scp_steps(sources, target).len() - tail.len();
    if i >= k {
        lemma_sources_direction(sources, target, i - k);
    }
}

proof fn lemma_sources_direction(sources: Seq<Seq<char>>, target: Seq<char>, i: int)
    requires
        0 <= i < sources_steps(sources, target).len(),
    ensures
        sources_steps(sources, target)[i] is Upload ==> is_remote(target),
        sources_steps(sources, target)[i] is Download ==> !is_remote(target),
        sources_steps(sources, target)[i] is Copy ==> !is_remote(target),
    decreases sources.len(),
{
    let head = source_steps(sources[0], target);
    if i >= head.len() {
        lemma_sources_direction(sources.skip(1), target, i - head.len());
    }
}

/// The host of an argument is everything in front of its first colon, and the path everything behind
/// it, whatever they look like. An argument without a colon is a local path.
pub proof fn law_scp_argument(remote: Seq<char>, path: Seq<char>)
    requires
        !remote.contains(':'),
    ensures
        is_remote(remote + seq![':'] + path),
        remote_of(remote + seq![':'] + path) == remote,
        path_of(remote + seq![':'] + path) == path,
        !is_remote(remote),
        path_of(remote) == remote,
{
    crate::text::law_split_first(remote, ':', path);
    crate::text::law_split_first_none(remote, ':');
}

/// Whether all arguments name local files.
pub open spec fn are_local(sources: Seq<Seq<char>>) -> bool {
    forall|i: int| 0 <= i < sources.len() ==> !(#[trigger] sources[i]).contains(':')
}

/// The steps that send local files to a path on the target host.
pub open spec fn uploads(sources: Seq<Seq<char>>, path: Seq<char>) -> Seq<ScpStep<Seq<char>>> {
    sources.map_values(|source: Seq<char>| ScpStep::Upload { source, target: path })
}

proof fn lemma_local_sources(sources: Seq<Seq<char>>, others: Seq<Seq<char>>, target: Seq<char>)
    requires
        are_local(sources),
        is_remote(target),
    ensures
        sources_steps(sources + others, target) == uploads(sources, path_of(target))
            + sources_steps(others, target),
    decreases sources.len(),
{
    let all = sources + others;
    let path = path_of(target);
    if sources.len() == 0 {
        assert(all =~= others);
        assert(uploads(sources, path) + sources_steps(others, target) =~= sources_steps(
            others,
            target,
        ));
    } else {
        let first = sources[0];
        let rest = sources.skip(1);
        assert(all[0] == first);
        assert(all.skip(1) =~= rest + others);
        law_scp_argument(first, Seq::empty());
        assert forall|i: int| 0 <= i < rest.len() implies !(#[trigger] rest[i]).contains(':') by {
            assert(rest[i] == sources[i + 1]);
        }
        lemma_local_sources(rest, others, target);
        assert(uploads(sources, path) =~= seq![ScpStep::Upload { source: first, target: path }]
            + uploads(rest, path));
        assert(sources_steps(all, target) =~= uploads(sources, path) + sources_steps(
            others,
            target,
        ));
    }
}

/// A copy of local files to a remote host connects to that host once, and then sends every file, under
/// the path that it is given, to the path of the target.
pub proof fn law_scp_upload(sources: Seq<Seq<char>>, remote: Seq<char>, path: Seq<char>)
    requires
        are_local(sources),
        !remote.contains(':'),
    ensures
        scp_steps(sources, remote + seq![':'] + path) == seq![ScpStep::ConnectTarget { remote }]
            + uploads(sources, path),
{
    let target = remote + seq![':'] + path;
    law_scp_argument(remote, path);
    lemma_local_sources(sources, Seq::empty(), target);
    assert(sources + Seq::empty() =~= sources);
    assert(scp_steps(sources, target) =~= seq![ScpStep::ConnectTarget { remote }] + uploads(
        sources,
        path,
    ));
}

/// A copy to a remote host ends at the first file of a remote host: what is in front of it is sent,
/// that host is connected to, and the copy is refused.
pub proof fn law_scp_between_hosts(
    sources: Seq<Seq<char>>,
    other: Seq<char>,
    file: Seq<char>,
    others: Seq<Seq<char>>,
    remote: Seq<char>,
    path: Seq<char>,
)
    requires
        are_local(sources),
        !other.contains(':'),
        !remote.contains(':'),
    ensures
        scp_steps(
            sources + (seq![other + seq![':'] + file] + others),
            remote + seq![':'] + path,
        ) == seq![ScpStep::ConnectTarget { remote }] + uploads(sources, path) + seq![
            ScpStep::ConnectSource { remote: other },
            ScpStep::Refuse { error: TransferError::BetweenRemoteHosts },
        ],
{
    let target = remote + seq![':'] + path;
    let source = other + seq![':'] + file;
    let tail = seq![source] + others;
    law_scp_argument(remote, path);
    law_scp_argument(other, file);
    lemma_local_sources(sources, tail, target);
    assert(tail[0] == source);
    assert(scp_steps(sources + tail, target) =~= seq![ScpStep::ConnectTarget { remote }] + uploads(
        sources,
        path,
    ) + seq![
        ScpStep::ConnectSource { remote: other },
        ScpStep::Refuse { error: TransferError::BetweenRemoteHosts },
    ]);
}

/// A copy to a local path takes one source after the other. A file of a remote host is fetched from
/// the host and the path that its argument gives, and a local file is copied; both go to the target as
/// it is.
pub proof fn law_scp_to_local(
    sources: Seq<Seq<char>>,
    remote: Seq<char>,
    path: Seq<char>,
    target: Seq<char>,
)
    requires
        !remote.contains(':'),
        !target.contains(':'),
    ensures
        scp_steps(Seq::empty(), target) == Seq::<ScpStep<Seq<char>>>::empty(),
        scp_steps(seq![remote + seq![':'] + path] + sources, target) == seq![
            ScpStep::ConnectSource { remote },
            ScpStep::Download { source: path, target },
        ] + scp_steps(sources, target),
        scp_steps(seq![remote] + sources, target) == seq![
            ScpStep::Copy { source: remote, target },
        ] + scp_steps(sources, target),
{
    law_scp_argument(remote, path);
    law_scp_argument(target, Seq::empty());
    let fetched = seq![remote + seq![':'] + path] + sources;
    let copied = seq![remote] + sources;
    assert(fetched.skip(1) =~= sources);
    assert(copied.skip(1) =~= sources);
    assert(fetched[0] == remote + seq![':'] + path);
    assert(copied[0] == remote);
    assert(scp_steps(sources, target) =~= sources_steps(sources, target));
    assert(scp_steps(fetched, target) =~= seq![
        ScpStep::ConnectSource { remote },
        ScpStep::Download { source: path, target },
    ] + scp_steps(sources, target));
    assert(scp_steps(copied, target) =~= seq![ScpStep::Copy { source: remote, target }] + scp_steps(
        sources,
        target,
    ));
    assert(scp_steps(Seq::empty(), target) =~= Seq::<ScpStep<Seq<char>>>::empty());
}

} // verus!
