//! Whole runs: what a generator asks for over a whole conversation with its
//! host, whatever the host answers.
//!
//! A run is followed here through any sequence of responses. What is proved
//! holds of every host: one that carries out each request, one that refuses
//! some, and one that answers beside the point.

use vstd::prelude::*;
use crate::device::DeviceView;
use crate::error::ErrorView;
use crate::generator::{
    spec_handle_device, spec_load_module, spec_make_service_template, spec_modules_load_path,
    spec_refusal, spec_run_generator, GeneratorView, Phase, ProgressView,
};
use crate::request::{Artifact, RequestView, ResponseView};
use crate::units::{CONTAINER_NOTICE, MODULES_LOAD_CONTENTS, NO_DEVICES_NOTICE};

verus! {

/// The request that a run in the state `progress` has handed out and waits
/// for, if it waits for one.
pub open spec fn spec_offered(progress: ProgressView) -> Seq<RequestView> {
    match progress {
        ProgressView::Pending(generator) => seq![generator.awaiting],
        _ => Seq::empty(),
    }
}

/// The state of a run that began in the state `start`, once the host has
/// given `responses`, one to each request in turn. Responses given after
/// the run is over change nothing.
pub open spec fn spec_progress(start: ProgressView, responses: Seq<ResponseView>) -> ProgressView
    decreases responses.len(),
{
    if responses.len() == 0 {
        start
    } else {
        match spec_progress(start, responses.drop_last()) {
            ProgressView::Pending(generator) => generator.resume(responses.last()),
            over => over,
        }
    }
}

/// Every request that such a run has handed out by then, in order, the one
/// it waits for included.
pub open spec fn spec_requests(start: ProgressView, responses: Seq<ResponseView>) -> Seq<
    RequestView,
>
    decreases responses.len(),
{
    if responses.len() == 0 {
        spec_offered(start)
    } else {
        spec_requests(start, responses.drop_last()) + spec_offered(spec_progress(start, responses))
    }
}

/// The state of the run that generates for `devices`, once the host has
/// given `responses`.
pub open spec fn spec_run_progress(
    root: Seq<char>,
    devices: Seq<DeviceView>,
    output_directory: Seq<char>,
    responses: Seq<ResponseView>,
) -> ProgressView {
    spec_progress(spec_run_generator(root, devices, output_directory), responses)
}

/// Every request that the run that generates for `devices` has handed out
/// once the host has given `responses`.
pub open spec fn spec_run_requests(
    root: Seq<char>,
    devices: Seq<DeviceView>,
    output_directory: Seq<char>,
    responses: Seq<ResponseView>,
) -> Seq<RequestView> {
    spec_requests(spec_run_generator(root, devices, output_directory), responses)
}

/// Whether none of `requests` changes anything in the file system.
pub open spec fn spec_leaves_file_system_alone(requests: Seq<RequestView>) -> bool {
    forall|i: int| 0 <= i < requests.len() ==> !(#[trigger] requests[i]).touches_file_system()
}

/// The request that writes the directive which loads the module at boot:
/// one line with the name of the module, below `root`.
pub open spec fn spec_module_directive(root: Seq<char>) -> RequestView {
    RequestView::WriteFile {
        artifact: Artifact::ModulesLoad,
        path: spec_modules_load_path(root),
        contents: MODULES_LOAD_CONTENTS@,
    }
}

/// Whether none of `requests` but the last writes the module directive,
/// and the last, if it does, writes it as it should be below `root`.
pub open spec fn spec_directive_last(root: Seq<char>, requests: Seq<RequestView>) -> bool {
    forall|i: int|
        0 <= i < requests.len() && (#[trigger] requests[i]).writes(Artifact::ModulesLoad)
            ==> i == requests.len() - 1 && requests[i] == spec_module_directive(root)
}

/// Whether none of `requests` writes the module directive.
pub open spec fn spec_directive_absent(requests: Seq<RequestView>) -> bool {
    forall|i: int|
        0 <= i < requests.len() ==> !(#[trigger] requests[i]).writes(Artifact::ModulesLoad)
}

/// A run that is over stays as it is and asks for nothing more.
pub proof fn lemma_over_is_final(start: ProgressView, responses: Seq<ResponseView>, k: int)
    requires
        0 <= k <= responses.len(),
        !(spec_progress(start, responses.take(k)) is Pending),
    ensures
        spec_progress(start, responses) == spec_progress(start, responses.take(k)),
        spec_requests(start, responses) == spec_requests(start, responses.take(k)),
    decreases responses.len(),
{
    if k == responses.len() {
        assert(responses.take(k) =~= responses);
    } else {
        assert(responses.drop_last().take(k) =~= responses.take(k));
        lemma_over_is_final(start, responses.drop_last(), k);
    }
}

/// The first response that does not answer its request ends the run with
/// the error that belongs to that request, and nothing more is asked for,
/// whatever the host says afterwards.
pub proof fn lemma_refusal_ends_run(start: ProgressView, responses: Seq<ResponseView>, k: int)
    requires
        0 <= k < responses.len(),
        spec_progress(start, responses.take(k)) is Pending,
        spec_refusal(spec_progress(start, responses.take(k))->Pending_0.awaiting, responses[k])
            is Some,
    ensures
        spec_progress(start, responses) == ProgressView::Failed(
            spec_refusal(
                spec_progress(start, responses.take(k))->Pending_0.awaiting,
                responses[k],
            )->0,
        ),
        spec_requests(start, responses) == spec_requests(start, responses.take(k)),
{
    let step = responses.take(k + 1);
    assert(step.drop_last() =~= responses.take(k));
    assert(step.last() == responses[k]);
    assert(spec_requests(start, step) =~= spec_requests(start, responses.take(k)));
    lemma_over_is_final(start, responses, k + 1);
}

/// Without devices a run only prints that there are none: it changes
/// nothing in the file system, and is finished as soon as the host has
/// answered.
pub proof fn lemma_no_devices(
    root: Seq<char>,
    devices: Seq<DeviceView>,
    output_directory: Seq<char>,
    responses: Seq<ResponseView>,
)
    requires
        devices.len() == 0,
    ensures
        spec_run_requests(root, devices, output_directory, responses) == seq![
            RequestView::Announce { line: NO_DEVICES_NOTICE@ },
        ],
        spec_leaves_file_system_alone(
            spec_run_requests(root, devices, output_directory, responses),
        ),
        responses.len() > 0 ==> spec_run_progress(root, devices, output_directory, responses)
            == ProgressView::Finished,
    decreases responses.len(),
{
    let start = spec_run_generator(root, devices, output_directory);
    if responses.len() > 0 {
        lemma_no_devices(root, devices, output_directory, responses.drop_last());
        if responses.len() == 1 {
            assert(spec_progress(start, responses.drop_last()) == start);
        }
        assert(spec_requests(start, responses) =~= spec_requests(start, responses.drop_last()));
    }
}

/// How a run goes on once the probe has found a container.
proof fn lemma_container_run(
    root: Seq<char>,
    devices: Seq<DeviceView>,
    output_directory: Seq<char>,
    responses: Seq<ResponseView>,
)
    requires
        devices.len() > 0,
        responses.len() > 0,
        responses[0] == (ResponseView::Exited { success: true }),
    ensures
        spec_run_requests(root, devices, output_directory, responses) == seq![
            RequestView::DetectContainer,
            RequestView::Announce { line: CONTAINER_NOTICE@ },
        ],
        responses.len() == 1 ==> {
            &&& spec_run_progress(root, devices, output_directory, responses)
                matches ProgressView::Pending(run)
            &&& run.phase == Phase::Closing
            &&& run.pending.len() == 0
        },
        responses.len() > 1 ==> spec_run_progress(root, devices, output_directory, responses)
            == ProgressView::Finished,
    decreases responses.len(),
{
    let start = spec_run_generator(root, devices, output_directory);
    let notice = seq![RequestView::Announce { line: CONTAINER_NOTICE@ }];
    if responses.len() == 1 {
        let first = start->Pending_0;
        let second = GeneratorView {
            phase: Phase::Closing,
            awaiting: RequestView::Announce { line: CONTAINER_NOTICE@ },
            ..first
        };
        assert(responses.drop_last() =~= Seq::empty());
        assert(responses.last() == responses[0]);
        assert(spec_progress(start, responses.drop_last()) == start);
        assert(spec_requests(start, responses.drop_last()) == seq![RequestView::DetectContainer]);
        assert(notice.drop_first() =~= first.pending);
        assert(first.resume(responses[0]) == ProgressView::Pending(second));
        assert(spec_requests(start, responses) =~= seq![RequestView::DetectContainer] + notice);
    } else {
        assert(responses.drop_last()[0] == responses[0]);
        lemma_container_run(root, devices, output_directory, responses.drop_last());
        if responses.len() == 2 {
            assert(responses.drop_last().drop_last() =~= Seq::empty());
        }
        assert(spec_requests(start, responses) =~= spec_requests(start, responses.drop_last()));
    }
}

/// In a container a run only prints that it is in one: whatever devices
/// are configured, it changes nothing in the file system, and is finished
/// as soon as the host has answered.
pub proof fn lemma_container(
    root: Seq<char>,
    devices: Seq<DeviceView>,
    output_directory: Seq<char>,
    responses: Seq<ResponseView>,
)
    requires
        devices.len() > 0,
        responses.len() > 0,
        responses[0] == (ResponseView::Exited { success: true }),
    ensures
        spec_run_requests(root, devices, output_directory, responses) == seq![
            RequestView::DetectContainer,
            RequestView::Announce { line: CONTAINER_NOTICE@ },
        ],
        spec_leaves_file_system_alone(
            spec_run_requests(root, devices, output_directory, responses),
        ),
        responses.len() > 1 ==> spec_run_progress(root, devices, output_directory, responses)
            == ProgressView::Finished,
{
    lemma_container_run(root, devices, output_directory, responses);
}

/// What holds of a run below `root` in the state `progress` that has handed
/// out `requests` so far: the module directive is the last thing that it
/// ever asks for, and it asks for it in the closing phase only.
spec fn spec_directive_in_order(
    root: Seq<char>,
    progress: ProgressView,
    requests: Seq<RequestView>,
) -> bool {
    match progress {
        ProgressView::Pending(run) => {
            &&& run.root == root
            &&& requests.len() > 0
            &&& requests.last() == run.awaiting
            &&& spec_directive_last(root, requests + run.pending)
            &&& run.phase != Phase::Closing ==> spec_directive_absent(requests + run.pending)
        },
        ProgressView::Finished => spec_directive_last(root, requests),
        ProgressView::Failed(error) => {
            &&& spec_directive_last(root, requests)
            &&& !spec_directive_absent(requests) ==> error matches ErrorView::FileWrite {
                artifact: Artifact::ModulesLoad,
                ..
            }
        },
    }
}

/// A batch of requests that a run takes up when it has none left holds the
/// module directive at its end or not at all, and only if the run is
/// closing.
proof fn lemma_batches_keep_directive_last(run: GeneratorView, response: ResponseView, i: int)
    requires
        run.pending.len() == 0,
        run.resume(response) is Pending,
        ({
            let resumed = run.resume(response)->Pending_0;
            let batch = seq![resumed.awaiting] + resumed.pending;
            0 <= i < batch.len() && batch[i].writes(Artifact::ModulesLoad)
        }),
    ensures
        ({
            let resumed = run.resume(response)->Pending_0;
            let batch = seq![resumed.awaiting] + resumed.pending;
            &&& i == batch.len() - 1
            &&& batch[i] == spec_module_directive(run.root)
            &&& resumed.phase == Phase::Closing
        }),
{
    let device = run.devices[run.next_device as int];
    let setup = spec_handle_device(run.output_directory, device);
    assert(seq![setup.first()] + setup.drop_first() =~= setup);
    let resolve = seq![RequestView::ResolveExecutable];
    assert(seq![resolve.first()] + resolve.drop_first() =~= resolve);
    let notice = seq![RequestView::Announce { line: CONTAINER_NOTICE@ }];
    assert(seq![notice.first()] + notice.drop_first() =~= notice);
    if response is Executable {
        let closing = seq![spec_make_service_template(run.output_directory, response->path)]
            + spec_load_module(run.root);
        assert(seq![closing.first()] + closing.drop_first() =~= closing);
    }
}

/// One response keeps the module directive in its place.
proof fn lemma_step_keeps_directive_in_order(
    run: GeneratorView,
    requests: Seq<RequestView>,
    response: ResponseView,
)
    requires
        spec_directive_in_order(run.root, ProgressView::Pending(run), requests),
    ensures
        spec_directive_in_order(
            run.root,
            run.resume(response),
            requests + spec_offered(run.resume(response)),
        ),
{
    let root = run.root;
    let before = requests + run.pending;
    let next = run.resume(response);
    let after = requests + spec_offered(next);
    match next {
        ProgressView::Pending(resumed) => {
            let all = after + resumed.pending;
            if run.pending.len() > 0 {
                assert(all =~= before);
            } else {
                assert(before =~= requests);
                let batch = seq![resumed.awaiting] + resumed.pending;
                assert(all =~= requests + batch);
                assert forall|i: int|
                    0 <= i < batch.len() && (#[trigger] batch[i]).writes(Artifact::ModulesLoad)
                    implies i == batch.len() - 1 && batch[i] == spec_module_directive(root)
                    && resumed.phase == Phase::Closing by {
                    lemma_batches_keep_directive_last(run, response, i);
                }
                assert forall|i: int|
                    0 <= i < all.len() && (#[trigger] all[i]).writes(Artifact::ModulesLoad)
                    implies i == all.len() - 1 && all[i] == spec_module_directive(root)
                    && resumed.phase == Phase::Closing by {
                    if i < requests.len() {
                        assert(all[i] == before[i]);
                    } else {
                        assert(all[i] == batch[i - requests.len()]);
                    }
                }
            }
        },
        ProgressView::Finished => {
            assert(after =~= requests);
            assert(before =~= requests);
        },
        ProgressView::Failed(error) => {
            assert(after =~= requests);
            assert forall|i: int|
                0 <= i < requests.len() && (#[trigger] requests[i]).writes(Artifact::ModulesLoad)
                implies i == requests.len() - 1 && requests[i] == spec_module_directive(root)
                && (error matches ErrorView::FileWrite { artifact: Artifact::ModulesLoad, .. }) by {
                assert(before[i] == requests[i]);
                if run.pending.len() > 0 {
                    assert(i == before.len() - 1);
                }
            }
        },
    }
}

/// Wherever a run stands, the module directive is in its place.
proof fn lemma_directive_in_order(
    root: Seq<char>,
    devices: Seq<DeviceView>,
    output_directory: Seq<char>,
    responses: Seq<ResponseView>,
)
    ensures
        spec_directive_in_order(
            root,
            spec_run_progress(root, devices, output_directory, responses),
            spec_run_requests(root, devices, output_directory, responses),
        ),
    decreases responses.len(),
{
    let start = spec_run_generator(root, devices, output_directory);
    if responses.len() == 0 {
        let first = start->Pending_0;
        assert(spec_requests(start, responses) + first.pending =~= seq![first.awaiting]);
    } else {
        lemma_directive_in_order(root, devices, output_directory, responses.drop_last());
        let requests = spec_requests(start, responses.drop_last());
        match spec_progress(start, responses.drop_last()) {
            ProgressView::Pending(run) => {
                lemma_step_keeps_directive_in_order(run, requests, responses.last());
            },
            _ => {
                assert(spec_requests(start, responses) =~= requests);
            },
        }
    }
}

/// The directive that loads the module is the last thing that a run ever
/// asks for, and it is always the same one line.
///
/// Whatever the devices are, however often one is repeated, and whatever
/// the host answers, a run writes the directive at most once, as the last
/// of its requests, below the root, and with the name of the module and a
/// line end as its whole content.
pub proof fn lemma_module_directive(
    root: Seq<char>,
    devices: Seq<DeviceView>,
    output_directory: Seq<char>,
    responses: Seq<ResponseView>,
)
    ensures
        spec_directive_last(root, spec_run_requests(root, devices, output_directory, responses)),
        spec_module_directive(root)->WriteFile_contents == seq!['z', 'r', 'a', 'm', '\n'],
{
    reveal_strlit("zram\n");
    assert(MODULES_LOAD_CONTENTS@ =~= seq!['z', 'r', 'a', 'm', '\n']);
    let requests = spec_run_requests(root, devices, output_directory, responses);
    lemma_directive_in_order(root, devices, output_directory, responses);
    match spec_run_progress(root, devices, output_directory, responses) {
        ProgressView::Pending(run) => {
            assert forall|i: int|
                0 <= i < requests.len() && (#[trigger] requests[i]).writes(Artifact::ModulesLoad)
                implies i == requests.len() - 1 && requests[i] == spec_module_directive(root) by {
                assert((requests + run.pending)[i] == requests[i]);
            }
        },
        _ => {},
    }
}

/// A run that has failed on anything but the write of the module directive
/// has not asked for that write: whatever was done before the failure, no
/// directive is left behind.
pub proof fn lemma_failure_leaves_no_directive(
    root: Seq<char>,
    devices: Seq<DeviceView>,
    output_directory: Seq<char>,
    responses: Seq<ResponseView>,
)
    requires
        spec_run_progress(root, devices, output_directory, responses) is Failed,
        !(spec_run_progress(root, devices, output_directory, responses)->Failed_0
            matches ErrorView::FileWrite { artifact: Artifact::ModulesLoad, .. }),
    ensures
        spec_directive_absent(spec_run_requests(root, devices, output_directory, responses)),
{
    lemma_directive_in_order(root, devices, output_directory, responses);
}

/// A directory that cannot be created ends the run at once, with the error
/// that names the directory, and no module directive is written, however
/// many devices were set up before.
pub proof fn lemma_failed_directory_ends_run(
    root: Seq<char>,
    devices: Seq<DeviceView>,
    output_directory: Seq<char>,
    responses: Seq<ResponseView>,
    k: int,
)
    requires
        0 <= k < responses.len(),
        spec_run_progress(root, devices, output_directory, responses.take(k)) is Pending,
        spec_run_progress(root, devices, output_directory, responses.take(k))->Pending_0.awaiting
            is CreateDirAll,
        !(responses[k] is Done),
    ensures
        spec_run_progress(root, devices, output_directory, responses) == ProgressView::Failed(
            ErrorView::DirCreate {
                path: spec_run_progress(
                    root,
                    devices,
                    output_directory,
                    responses.take(k),
                )->Pending_0.awaiting->CreateDirAll_path,
                cause: responses[k].cause(),
            },
        ),
        spec_run_requests(root, devices, output_directory, responses) == spec_run_requests(
            root,
            devices,
            output_directory,
            responses.take(k),
        ),
        spec_directive_absent(spec_run_requests(root, devices, output_directory, responses)),
{
    lemma_refusal_ends_run(spec_run_generator(root, devices, output_directory), responses, k);
    lemma_failure_leaves_no_directive(root, devices, output_directory, responses);
}

} // verus!
