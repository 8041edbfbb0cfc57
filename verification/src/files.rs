//! What a run leaves in the files that it writes.
//!
//! A host that carries out the requests of a run changes the content of
//! files by the write requests alone. The files are modelled as a map from
//! paths to contents; a write puts its content in the place of whatever
//! the path held.

use vstd::prelude::*;
use crate::device::DeviceView;
use crate::full_run::{spec_closing, spec_device_requests, spec_full_run};
use crate::generator::{
    spec_handle_device, spec_make_service_template, spec_run_generator, spec_swap_unit_write,
    GeneratorView, ProgressView,
};
use crate::path::{lemma_join_has_parent, lemma_join_tells_components_apart};
use crate::request::{RequestView, ResponseView};
use crate::run::{
    spec_module_directive, spec_offered, spec_progress, spec_requests, spec_run_progress,
    spec_run_requests,
};
use crate::units::{
    lemma_fixed_names, lemma_swap_unit_name_ends, lemma_swap_unit_name_tells_devices_apart,
    spec_swap_unit_name, CONTAINER_NOTICE, MODULES_LOAD_FILE, SERVICE_TEMPLATE,
};

verus! {

/// The files once `request` has been carried out.
pub open spec fn spec_apply(
    files: Map<Seq<char>, Seq<char>>,
    request: RequestView,
) -> Map<Seq<char>, Seq<char>> {
    match request {
        RequestView::WriteFile { path, contents, .. } => files.insert(path, contents),
        _ => files,
    }
}

/// The files once `requests` have been carried out, one after the other.
pub open spec fn spec_apply_all(
    files: Map<Seq<char>, Seq<char>>,
    requests: Seq<RequestView>,
) -> Map<Seq<char>, Seq<char>>
    decreases requests.len(),
{
    if requests.len() == 0 {
        files
    } else {
        spec_apply(spec_apply_all(files, requests.drop_last()), requests.last())
    }
}

/// Whether `files` already hold what `request` writes, if it writes.
pub open spec fn spec_holds(files: Map<Seq<char>, Seq<char>>, request: RequestView) -> bool {
    request matches RequestView::WriteFile { path, contents, .. } ==> files.contains_key(path)
        && files[path] == contents
}

/// Whether `files` already hold what each write among `requests` puts
/// there.
pub open spec fn spec_settled(
    files: Map<Seq<char>, Seq<char>>,
    requests: Seq<RequestView>,
) -> bool {
    forall|i: int| 0 <= i < requests.len() ==> spec_holds(files, #[trigger] requests[i])
}

/// Whether `first` and `second` agree: if both write to the same path,
/// they write the same content.
pub open spec fn spec_agree(first: RequestView, second: RequestView) -> bool {
    first is WriteFile && second is WriteFile && first->WriteFile_path == second->WriteFile_path
        ==> first->WriteFile_contents == second->WriteFile_contents
}

/// Whether the writes among `requests` agree: no two of them put
/// different contents at the same path.
pub open spec fn spec_coherent(requests: Seq<RequestView>) -> bool {
    forall|i: int, j: int|
        0 <= i < requests.len() && 0 <= j < requests.len() ==> spec_agree(
            #[trigger] requests[i],
            #[trigger] requests[j],
        )
}

/// Whether `request` is one of the writes of the full run: the swap unit
/// of one of the devices, the service template, or the module directive.
pub open spec fn spec_expected_write(
    root: Seq<char>,
    devices: Seq<DeviceView>,
    output_directory: Seq<char>,
    generator: Seq<char>,
    request: RequestView,
) -> bool {
    ||| exists|d: int|
        0 <= d < devices.len() && request == spec_swap_unit_write(
            output_directory,
            #[trigger] devices[d],
        )
    ||| request == spec_make_service_template(output_directory, generator)
    ||| request == spec_module_directive(root)
}

/// Whether every write among `requests` is one of the writes of the full
/// run.
pub open spec fn spec_expected_writes(
    root: Seq<char>,
    devices: Seq<DeviceView>,
    output_directory: Seq<char>,
    generator: Seq<char>,
    requests: Seq<RequestView>,
) -> bool {
    forall|i: int|
        0 <= i < requests.len() && (#[trigger] requests[i]) is WriteFile ==> spec_expected_write(
            root,
            devices,
            output_directory,
            generator,
            requests[i],
        )
}

/// Whether every response among `responses` that tells the path of the
/// executable tells `generator`.
pub open spec fn spec_executable_is(responses: Seq<ResponseView>, generator: Seq<char>) -> bool {
    forall|k: int|
        0 <= k < responses.len() ==> (#[trigger] responses[k] matches ResponseView::Executable {
            path,
        } ==> path == generator)
}

/// Carrying out requests on files that already hold what they write
/// changes nothing.
pub proof fn lemma_settled_files_stay(
    files: Map<Seq<char>, Seq<char>>,
    requests: Seq<RequestView>,
)
    requires
        spec_settled(files, requests),
    ensures
        spec_apply_all(files, requests) == files,
    decreases requests.len(),
{
    if requests.len() > 0 {
        let earlier = requests.drop_last();
        assert forall|i: int| 0 <= i < earlier.len() implies spec_holds(
            files,
            #[trigger] earlier[i],
        ) by {
            assert(earlier[i] == requests[i]);
        }
        lemma_settled_files_stay(files, earlier);
        assert(requests.last() == requests[requests.len() - 1]);
        assert(spec_apply(files, requests.last()) =~= files);
    }
}

/// Once requests that agree have been carried out, the files hold what
/// each of them writes.
pub proof fn lemma_coherent_requests_settle(
    files: Map<Seq<char>, Seq<char>>,
    requests: Seq<RequestView>,
)
    requires
        spec_coherent(requests),
    ensures
        spec_settled(spec_apply_all(files, requests), requests),
    decreases requests.len(),
{
    if requests.len() > 0 {
        let earlier = requests.drop_last();
        let last = requests.last();
        assert(last == requests[requests.len() - 1]);
        assert forall|i: int, j: int|
            0 <= i < earlier.len() && 0 <= j < earlier.len() implies spec_agree(
            #[trigger] earlier[i],
            #[trigger] earlier[j],
        ) by {
            assert(earlier[i] == requests[i]);
            assert(earlier[j] == requests[j]);
        }
        lemma_coherent_requests_settle(files, earlier);
        let after = spec_apply_all(files, requests);
        assert forall|i: int| 0 <= i < requests.len() implies spec_holds(
            after,
            #[trigger] requests[i],
        ) by {
            if i < earlier.len() {
                assert(earlier[i] == requests[i]);
                assert(spec_agree(requests[i], last));
            }
        }
    }
}

/// The write of the swap unit of a device agrees with every write of the
/// full run: it shares its path with the swap units of devices of the same
/// name only.
proof fn lemma_swap_unit_write_agrees(
    root: Seq<char>,
    devices: Seq<DeviceView>,
    output_directory: Seq<char>,
    generator: Seq<char>,
    device: DeviceView,
    other: RequestView,
)
    requires
        spec_expected_write(root, devices, output_directory, generator, other),
    ensures
        spec_agree(spec_swap_unit_write(output_directory, device), other),
        spec_agree(other, spec_swap_unit_write(output_directory, device)),
{
    let mine = spec_swap_unit_write(output_directory, device);
    let name = spec_swap_unit_name(device.name);
    lemma_fixed_names();
    lemma_swap_unit_name_ends(device.name);
    lemma_join_has_parent(output_directory, name);
    if other == spec_make_service_template(output_directory, generator) {
        if mine->WriteFile_path == other->WriteFile_path {
            lemma_join_tells_components_apart(output_directory, name, SERVICE_TEMPLATE@);
        }
    } else if other == spec_module_directive(root) {
        lemma_join_has_parent(root, MODULES_LOAD_FILE@);
    } else {
        let d = choose|d: int|
            0 <= d < devices.len() && other == spec_swap_unit_write(
                output_directory,
                #[trigger] devices[d],
            );
        lemma_swap_unit_name_ends(devices[d].name);
        if mine->WriteFile_path == other->WriteFile_path {
            lemma_join_tells_components_apart(
                output_directory,
                name,
                spec_swap_unit_name(devices[d].name),
            );
            lemma_swap_unit_name_tells_devices_apart(device.name, devices[d].name);
        }
    }
}

/// Two writes of the full run that go to the same path write the same
/// content: the swap units of two devices share a path only if the devices
/// share their name, and no swap unit, service template and module
/// directive share a path at all.
proof fn lemma_expected_writes_agree(
    root: Seq<char>,
    devices: Seq<DeviceView>,
    output_directory: Seq<char>,
    generator: Seq<char>,
    first: RequestView,
    second: RequestView,
)
    requires
        spec_expected_write(root, devices, output_directory, generator, first),
        spec_expected_write(root, devices, output_directory, generator, second),
    ensures
        spec_agree(first, second),
{
    let template = spec_make_service_template(output_directory, generator);
    let directive = spec_module_directive(root);
    if first != template && first != directive {
        let d = choose|d: int|
            0 <= d < devices.len() && first == spec_swap_unit_write(
                output_directory,
                #[trigger] devices[d],
            );
        lemma_swap_unit_write_agrees(
            root,
            devices,
            output_directory,
            generator,
            devices[d],
            second,
        );
    } else if second != template && second != directive {
        let d = choose|d: int|
            0 <= d < devices.len() && second == spec_swap_unit_write(
                output_directory,
                #[trigger] devices[d],
            );
        lemma_swap_unit_write_agrees(
            root,
            devices,
            output_directory,
            generator,
            devices[d],
            first,
        );
    } else {
        lemma_fixed_names();
        lemma_join_has_parent(root, MODULES_LOAD_FILE@);
        lemma_join_has_parent(output_directory, SERVICE_TEMPLATE@);
    }
}

/// Requests whose writes are all among those of the full run agree.
pub proof fn lemma_expected_writes_are_coherent(
    root: Seq<char>,
    devices: Seq<DeviceView>,
    output_directory: Seq<char>,
    generator: Seq<char>,
    requests: Seq<RequestView>,
)
    requires
        spec_expected_writes(root, devices, output_directory, generator, requests),
    ensures
        spec_coherent(requests),
{
    assert forall|i: int, j: int|
        0 <= i < requests.len() && 0 <= j < requests.len() implies spec_agree(
        #[trigger] requests[i],
        #[trigger] requests[j],
    ) by {
        if requests[i] is WriteFile && requests[j] is WriteFile {
            lemma_expected_writes_agree(
                root,
                devices,
                output_directory,
                generator,
                requests[i],
                requests[j],
            );
        }
    }
}

/// Every write among the requests of the devices is the write of the swap
/// unit of one of them.
proof fn lemma_device_requests_write_swap_units(
    output_directory: Seq<char>,
    devices: Seq<DeviceView>,
    i: int,
) -> (d: int)
    requires
        0 <= i < spec_device_requests(output_directory, devices).len(),
        spec_device_requests(output_directory, devices)[i] is WriteFile,
    ensures
        0 <= d < devices.len(),
        spec_device_requests(output_directory, devices)[i] == spec_swap_unit_write(
            output_directory,
            devices[d],
        ),
    decreases devices.len(),
{
    let first = spec_handle_device(output_directory, devices.first());
    let rest = devices.drop_first();
    if i < first.len() {
        assert(spec_device_requests(output_directory, devices)[i] == first[i]);
        0
    } else {
        assert(spec_device_requests(output_directory, devices)[i] == spec_device_requests(
            output_directory,
            rest,
        )[i - first.len()]);
        let d = lemma_device_requests_write_swap_units(output_directory, rest, i - first.len());
        assert(rest[d] == devices[d + 1]);
        d + 1
    }
}

/// The write of the swap unit of each device is among the requests of the
/// devices.
proof fn lemma_device_requests_hold_swap_unit(
    output_directory: Seq<char>,
    devices: Seq<DeviceView>,
    d: int,
) -> (at: int)
    requires
        0 <= d < devices.len(),
    ensures
        0 <= at < spec_device_requests(output_directory, devices).len(),
        spec_device_requests(output_directory, devices)[at] == spec_swap_unit_write(
            output_directory,
            devices[d],
        ),
    decreases devices.len(),
{
    let first = spec_handle_device(output_directory, devices.first());
    let rest = devices.drop_first();
    if d == 0 {
        assert(spec_device_requests(output_directory, devices)[1] == first[1]);
        1
    } else {
        assert(rest[d - 1] == devices[d]);
        let at = lemma_device_requests_hold_swap_unit(output_directory, rest, d - 1);
        assert(spec_device_requests(output_directory, devices)[first.len() + at]
            == spec_device_requests(output_directory, rest)[at]);
        first.len() + at
    }
}

/// The writes of the full run are the swap unit of each device, the
/// service template and the module directive, and no others.
pub proof fn lemma_full_run_writes(
    root: Seq<char>,
    devices: Seq<DeviceView>,
    output_directory: Seq<char>,
    generator: Seq<char>,
)
    ensures
        spec_expected_writes(
            root,
            devices,
            output_directory,
            generator,
            spec_full_run(root, devices, output_directory, generator),
        ),
        forall|request: RequestView| #[trigger]
            spec_expected_write(root, devices, output_directory, generator, request)
                ==> spec_full_run(root, devices, output_directory, generator).contains(request),
{
    let setup = spec_device_requests(output_directory, devices);
    let closing = spec_closing(root, output_directory, generator);
    let full = spec_full_run(root, devices, output_directory, generator);
    assert forall|i: int| 0 <= i < full.len() && (#[trigger] full[i]) is WriteFile
        implies spec_expected_write(root, devices, output_directory, generator, full[i]) by {
        if 1 <= i < 1 + setup.len() {
            assert(full[i] == setup[i - 1]);
            let d = lemma_device_requests_write_swap_units(output_directory, devices, i - 1);
        } else if i >= 2 + setup.len() {
            assert(full[i] == closing[i - 2 - setup.len()]);
        }
    }
    assert forall|request: RequestView| #[trigger]
        spec_expected_write(root, devices, output_directory, generator, request)
        implies full.contains(request) by {
        if request == spec_make_service_template(output_directory, generator) {
            assert(full[setup.len() as int + 2] == closing[0]);
        } else if request == spec_module_directive(root) {
            assert(full[setup.len() as int + 4] == closing[2]);
        } else {
            let d = choose|d: int|
                0 <= d < devices.len() && request == spec_swap_unit_write(
                    output_directory,
                    #[trigger] devices[d],
                );
            let at = lemma_device_requests_hold_swap_unit(output_directory, devices, d);
            assert(full[1 + at] == setup[at]);
        }
    }
}

/// The writes of the full run agree: a path is written with one content
/// only, however often a device is repeated.
pub proof fn lemma_full_run_is_coherent(
    root: Seq<char>,
    devices: Seq<DeviceView>,
    output_directory: Seq<char>,
    generator: Seq<char>,
)
    ensures
        spec_coherent(spec_full_run(root, devices, output_directory, generator)),
{
    lemma_full_run_writes(root, devices, output_directory, generator);
    lemma_expected_writes_are_coherent(
        root,
        devices,
        output_directory,
        generator,
        spec_full_run(root, devices, output_directory, generator),
    );
}

/// What holds of a run in the state `progress` that has handed out
/// `requests` so far: it has asked, and has in store, no writes but those
/// of the full run.
spec fn spec_writes_as_expected(
    root: Seq<char>,
    devices: Seq<DeviceView>,
    output_directory: Seq<char>,
    generator: Seq<char>,
    progress: ProgressView,
    requests: Seq<RequestView>,
) -> bool {
    match progress {
        ProgressView::Pending(run) => {
            &&& run.root == root
            &&& run.devices == devices
            &&& run.output_directory == output_directory
            &&& spec_expected_writes(
                root,
                devices,
                output_directory,
                generator,
                requests + run.pending,
            )
        },
        _ => spec_expected_writes(root, devices, output_directory, generator, requests),
    }
}

/// One response keeps the writes of a run as expected.
proof fn lemma_step_writes_as_expected(
    run: GeneratorView,
    generator: Seq<char>,
    requests: Seq<RequestView>,
    response: ResponseView,
)
    requires
        spec_writes_as_expected(
            run.root,
            run.devices,
            run.output_directory,
            generator,
            ProgressView::Pending(run),
            requests,
        ),
        response matches ResponseView::Executable { path } ==> path == generator,
    ensures
        spec_writes_as_expected(
            run.root,
            run.devices,
            run.output_directory,
            generator,
            run.resume(response),
            requests + spec_offered(run.resume(response)),
        ),
{
    let before = requests + run.pending;
    let next = run.resume(response);
    let after = requests + spec_offered(next);
    match next {
        ProgressView::Pending(resumed) => {
            let all = after + resumed.pending;
            if run.pending.len() > 0 {
                assert(all =~= before);
            } else {
                assert(before =~= requests);
                let batch = seq![resumed.awaiting] + resumed.pending;
                assert(all =~= requests + batch);
                let setup = spec_handle_device(
                    run.output_directory,
                    run.devices[run.next_device as int],
                );
                assert(seq![setup.first()] + setup.drop_first() =~= setup);
                let resolve = seq![RequestView::ResolveExecutable];
                assert(seq![resolve.first()] + resolve.drop_first() =~= resolve);
                let notice = seq![RequestView::Announce { line: CONTAINER_NOTICE@ }];
                assert(seq![notice.first()] + notice.drop_first() =~= notice);
                let closing = spec_closing(run.root, run.output_directory, generator);
                assert(seq![closing.first()] + closing.drop_first() =~= closing);
                assert forall|i: int| 0 <= i < all.len() && (#[trigger] all[i]) is WriteFile
                    implies spec_expected_write(
                    run.root,
                    run.devices,
                    run.output_directory,
                    generator,
                    all[i],
                ) by {
                    if i < requests.len() {
                        assert(all[i] == before[i]);
                    } else {
                        assert(all[i] == batch[i - requests.len()]);
                    }
                }
            }
        },
        _ => {
            assert(after =~= requests);
            assert forall|i: int| 0 <= i < requests.len() && (#[trigger] requests[i]) is WriteFile
                implies spec_expected_write(
                run.root,
                run.devices,
                run.output_directory,
                generator,
                requests[i],
            ) by {
                assert(before[i] == requests[i]);
            }
        },
    }
}

/// Wherever a run stands, its writes are as expected.
proof fn lemma_writes_as_expected(
    root: Seq<char>,
    devices: Seq<DeviceView>,
    output_directory: Seq<char>,
    generator: Seq<char>,
    responses: Seq<ResponseView>,
)
    requires
        spec_executable_is(responses, generator),
    ensures
        spec_writes_as_expected(
            root,
            devices,
            output_directory,
            generator,
            spec_run_progress(root, devices, output_directory, responses),
            spec_run_requests(root, devices, output_directory, responses),
        ),
    decreases responses.len(),
{
    let start = spec_run_generator(root, devices, output_directory);
    if responses.len() == 0 {
        let first = start->Pending_0;
        assert(spec_requests(start, responses) + first.pending =~= seq![first.awaiting]);
    } else {
        let earlier = responses.drop_last();
        assert(spec_executable_is(earlier, generator)) by {
            assert forall|k: int| 0 <= k < earlier.len() implies (#[trigger] earlier[k]
                matches ResponseView::Executable { path } ==> path == generator) by {
                assert(earlier[k] == responses[k]);
            }
        }
        lemma_writes_as_expected(root, devices, output_directory, generator, earlier);
        let requests = spec_requests(start, earlier);
        assert(responses.last() == responses[responses.len() - 1]);
        match spec_progress(start, earlier) {
            ProgressView::Pending(run) => {
                lemma_step_writes_as_expected(run, generator, requests, responses.last());
            },
            _ => {
                assert(spec_requests(start, responses) =~= requests);
            },
        }
    }
}

/// Whatever the host answers, a run writes nothing but the swap units of
/// its devices, the service template for the executable that the host
/// names, and the module directive: what it writes, and where, depends on
/// the devices, the two directories and the path of the executable alone.
pub proof fn lemma_run_writes_as_expected(
    root: Seq<char>,
    devices: Seq<DeviceView>,
    output_directory: Seq<char>,
    generator: Seq<char>,
    responses: Seq<ResponseView>,
)
    requires
        spec_executable_is(responses, generator),
    ensures
        spec_expected_writes(
            root,
            devices,
            output_directory,
            generator,
            spec_run_requests(root, devices, output_directory, responses),
        ),
{
    lemma_writes_as_expected(root, devices, output_directory, generator, responses);
    let requests = spec_run_requests(root, devices, output_directory, responses);
    match spec_run_progress(root, devices, output_directory, responses) {
        ProgressView::Pending(run) => {
            assert forall|i: int| 0 <= i < requests.len() && (#[trigger] requests[i]) is WriteFile
                implies spec_expected_write(
                root,
                devices,
                output_directory,
                generator,
                requests[i],
            ) by {
                assert((requests + run.pending)[i] == requests[i]);
            }
        },
        _ => {},
    }
}

/// Generating again over what a full run has left changes no file.
///
/// Take the files as a full run leaves them, and run again from the same
/// input, with the executable at the same path. Whatever the host answers
/// this time, and however far the run gets, whether to its end or to a
/// request that the host refuses, every file holds afterwards what it held
/// before: each write puts back the bytes that are there, and nothing is
/// added to any file.
pub proof fn lemma_rerun_changes_no_file(
    root: Seq<char>,
    devices: Seq<DeviceView>,
    output_directory: Seq<char>,
    generator: Seq<char>,
    files: Map<Seq<char>, Seq<char>>,
    responses: Seq<ResponseView>,
)
    requires
        spec_executable_is(responses, generator),
    ensures
        spec_apply_all(
            spec_apply_all(files, spec_full_run(root, devices, output_directory, generator)),
            spec_run_requests(root, devices, output_directory, responses),
        ) == spec_apply_all(files, spec_full_run(root, devices, output_directory, generator)),
{
    let full = spec_full_run(root, devices, output_directory, generator);
    let left = spec_apply_all(files, full);
    let requests = spec_run_requests(root, devices, output_directory, responses);
    lemma_full_run_writes(root, devices, output_directory, generator);
    lemma_full_run_is_coherent(root, devices, output_directory, generator);
    lemma_coherent_requests_settle(files, full);
    lemma_run_writes_as_expected(root, devices, output_directory, generator, responses);
    assert forall|i: int| 0 <= i < requests.len() implies spec_holds(
        left,
        #[trigger] requests[i],
    ) by {
        if requests[i] is WriteFile {
            assert(full.contains(requests[i]));
            let at = choose|at: int| 0 <= at < full.len() && full[at] == requests[i];
            assert(spec_holds(left, full[at]));
        }
    }
    lemma_settled_files_stay(left, requests);
}

} // verus!
