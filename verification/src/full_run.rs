//! The full run: everything that a run asks for when it is not in a
//! container and nothing fails.

use vstd::prelude::*;
use vstd::seq_lib::{
    lemma_multiset_commutative, to_multiset_contains, to_multiset_len, to_multiset_remove,
};
use crate::device::DeviceView;
use crate::generator::{
    spec_handle_device, spec_load_module, spec_make_service_template, spec_refusal,
    spec_run_generator, GeneratorView, Phase, ProgressView,
};
use crate::request::{Artifact, RequestView, ResponseView};
use crate::run::{spec_progress, spec_requests, spec_run_progress, spec_run_requests};

verus! {

/// The requests that set up `devices`, one device after the other.
pub open spec fn spec_device_requests(
    output_directory: Seq<char>,
    devices: Seq<DeviceView>,
) -> Seq<RequestView>
    decreases devices.len(),
{
    if devices.len() == 0 {
        Seq::empty()
    } else {
        spec_handle_device(output_directory, devices.first()) + spec_device_requests(
            output_directory,
            devices.drop_first(),
        )
    }
}

/// The requests that follow the last device: the service template, which
/// starts the executable at `generator`, and the module directive.
pub open spec fn spec_closing(
    root: Seq<char>,
    output_directory: Seq<char>,
    generator: Seq<char>,
) -> Seq<RequestView> {
    seq![spec_make_service_template(output_directory, generator)] + spec_load_module(root)
}

/// Everything that a run asks for when it is not in a container and
/// nothing fails: the container probe, the requests of each device in
/// turn, the path of the executable, then the service template and the
/// module directive.
pub open spec fn spec_full_run(
    root: Seq<char>,
    devices: Seq<DeviceView>,
    output_directory: Seq<char>,
    generator: Seq<char>,
) -> Seq<RequestView> {
    seq![RequestView::DetectContainer] + spec_device_requests(output_directory, devices)
        + seq![RequestView::ResolveExecutable] + spec_closing(root, output_directory, generator)
}

/// The response of a host that is not in a container, runs the executable
/// at `generator`, and carries out `request` without fault.
pub open spec fn spec_obliging(request: RequestView, generator: Seq<char>) -> ResponseView {
    match request {
        RequestView::DetectContainer => ResponseView::Exited { success: false },
        RequestView::ResolveExecutable => ResponseView::Executable { path: generator },
        _ => ResponseView::Done,
    }
}

/// Whether `responses` are what an obliging host answers to the first of
/// `requests`, one response to each.
pub open spec fn spec_obliges(
    responses: Seq<ResponseView>,
    requests: Seq<RequestView>,
    generator: Seq<char>,
) -> bool {
    &&& responses.len() <= requests.len()
    &&& forall|k: int|
        0 <= k < responses.len() ==> #[trigger] responses[k] == spec_obliging(
            requests[k],
            generator,
        )
}

/// Whether `request` is one that a host answers by carrying it out.
spec fn spec_plain(request: RequestView) -> bool {
    !(request is DetectContainer) && !(request is ResolveExecutable)
}

/// What a run in the state `run` has yet to ask of an obliging host, after
/// the request it waits for.
spec fn spec_outstanding(run: GeneratorView, generator: Seq<char>) -> Seq<RequestView> {
    run.pending + match run.phase {
        Phase::Probing | Phase::Devices => spec_device_requests(
            run.output_directory,
            run.devices.skip(run.next_device as int),
        ) + seq![RequestView::ResolveExecutable] + spec_closing(
            run.root,
            run.output_directory,
            generator,
        ),
        Phase::Resolving => spec_closing(run.root, run.output_directory, generator),
        Phase::Closing => Seq::empty(),
    }
}

/// Whether a run in the state `run` is where a run with an obliging host
/// can be.
spec fn spec_on_course(run: GeneratorView) -> bool {
    &&& run.next_device <= run.devices.len()
    &&& match run.phase {
        Phase::Probing => {
            &&& run.awaiting == RequestView::DetectContainer
            &&& run.pending.len() == 0
            &&& run.next_device < run.devices.len()
        },
        Phase::Resolving => {
            &&& run.awaiting == RequestView::ResolveExecutable
            &&& run.pending.len() == 0
        },
        Phase::Devices | Phase::Closing => {
            &&& spec_plain(run.awaiting)
            &&& forall|i: int| 0 <= i < run.pending.len() ==> spec_plain(#[trigger] run.pending[i])
        },
    }
}

/// The requests of the first device come first.
proof fn lemma_device_requests_unfold(
    output_directory: Seq<char>,
    devices: Seq<DeviceView>,
    from: int,
)
    requires
        0 <= from < devices.len(),
    ensures
        spec_device_requests(output_directory, devices.skip(from)) == spec_handle_device(
            output_directory,
            devices[from],
        ) + spec_device_requests(output_directory, devices.skip(from + 1)),
{
    assert(devices.skip(from).drop_first() =~= devices.skip(from + 1));
}

/// One obliging response takes a run that is on course to its next
/// request, until nothing is outstanding.
proof fn lemma_obliging_step(run: GeneratorView, generator: Seq<char>)
    requires
        spec_on_course(run),
    ensures
        spec_outstanding(run, generator).len() == 0 ==> run.resume(
            spec_obliging(run.awaiting, generator),
        ) == ProgressView::Finished,
        spec_outstanding(run, generator).len() > 0 ==> ({
            &&& run.resume(spec_obliging(run.awaiting, generator)) matches ProgressView::Pending(
                next,
            )
            &&& spec_on_course(next)
            &&& next.root == run.root
            &&& next.devices == run.devices
            &&& next.output_directory == run.output_directory
            &&& spec_outstanding(run, generator) == seq![next.awaiting] + spec_outstanding(
                next,
                generator,
            )
        }),
{
    let response = spec_obliging(run.awaiting, generator);
    let closing = spec_closing(run.root, run.output_directory, generator);
    assert(spec_refusal(run.awaiting, response) is None);
    if run.pending.len() > 0 {
        let next = run.resume(response)->Pending_0;
        assert(spec_outstanding(run, generator) =~= seq![next.awaiting] + spec_outstanding(
            next,
            generator,
        ));
    } else {
        match run.phase {
            Phase::Probing | Phase::Devices => {
                if run.next_device < run.devices.len() {
                    lemma_device_requests_unfold(
                        run.output_directory,
                        run.devices,
                        run.next_device as int,
                    );
                    let next = run.resume(response)->Pending_0;
                    let batch = spec_handle_device(
                        run.output_directory,
                        run.devices[run.next_device as int],
                    );
                    assert(seq![batch.first()] + batch.drop_first() =~= batch);
                    assert(spec_outstanding(run, generator) =~= seq![next.awaiting]
                        + spec_outstanding(next, generator));
                } else {
                    assert(run.devices.skip(run.next_device as int) =~= Seq::empty());
                    let next = run.resume(response)->Pending_0;
                    assert(spec_outstanding(run, generator) =~= seq![next.awaiting]
                        + spec_outstanding(next, generator));
                }
            },
            Phase::Resolving => {
                let next = run.resume(response)->Pending_0;
                assert(seq![closing.first()] + closing.drop_first() =~= closing);
                assert(spec_outstanding(run, generator) =~= seq![next.awaiting]
                    + spec_outstanding(next, generator));
            },
            Phase::Closing => {},
        }
    }
}

/// With a host that is not in a container and carries out every request,
/// a run over at least one device asks for exactly the requests of the full
/// run, one after the other, and is finished when the last is done.
///
/// Each device has its own requests in that sequence, made from the device
/// alone, so the order of the devices decides the order of the requests and
/// nothing else.
pub proof fn lemma_full_run(
    root: Seq<char>,
    devices: Seq<DeviceView>,
    output_directory: Seq<char>,
    generator: Seq<char>,
    responses: Seq<ResponseView>,
)
    requires
        devices.len() > 0,
        spec_obliges(
            responses,
            spec_full_run(root, devices, output_directory, generator),
            generator,
        ),
    ensures
        responses.len() < spec_full_run(root, devices, output_directory, generator).len() ==> {
            &&& spec_run_progress(root, devices, output_directory, responses) is Pending
            &&& spec_run_requests(root, devices, output_directory, responses) == spec_full_run(
                root,
                devices,
                output_directory,
                generator,
            ).take(responses.len() as int + 1)
        },
        responses.len() == spec_full_run(root, devices, output_directory, generator).len() ==> {
            &&& spec_run_progress(root, devices, output_directory, responses)
                == ProgressView::Finished
            &&& spec_run_requests(root, devices, output_directory, responses) == spec_full_run(
                root,
                devices,
                output_directory,
                generator,
            )
        },
{
    lemma_obliging_run(root, devices, output_directory, generator, responses);
    let full = spec_full_run(root, devices, output_directory, generator);
    let start = spec_run_generator(root, devices, output_directory);
    let requests = spec_requests(start, responses);
    if responses.len() < full.len() {
        assert(requests =~= full.take(responses.len() as int + 1));
    }
}

/// How far a run with an obliging host has come after any number of
/// responses: what it has asked for and what is outstanding make up the
/// full run.
proof fn lemma_obliging_run(
    root: Seq<char>,
    devices: Seq<DeviceView>,
    output_directory: Seq<char>,
    generator: Seq<char>,
    responses: Seq<ResponseView>,
)
    requires
        devices.len() > 0,
        spec_obliges(
            responses,
            spec_full_run(root, devices, output_directory, generator),
            generator,
        ),
    ensures
        ({
            let full = spec_full_run(root, devices, output_directory, generator);
            let start = spec_run_generator(root, devices, output_directory);
            let requests = spec_requests(start, responses);
            if responses.len() < full.len() {
                &&& spec_progress(start, responses) matches ProgressView::Pending(run)
                &&& spec_on_course(run)
                &&& run.root == root
                &&& run.devices == devices
                &&& run.output_directory == output_directory
                &&& requests.len() == responses.len() + 1
                &&& requests.last() == run.awaiting
                &&& requests + spec_outstanding(run, generator) == full
            } else {
                &&& spec_progress(start, responses) == ProgressView::Finished
                &&& requests == full
            }
        }),
    decreases responses.len(),
{
    let full = spec_full_run(root, devices, output_directory, generator);
    let start = spec_run_generator(root, devices, output_directory);
    if responses.len() == 0 {
        let run = start->Pending_0;
        assert(devices.skip(0) =~= devices);
        assert(spec_requests(start, responses) + spec_outstanding(run, generator) =~= full);
    } else {
        let earlier = responses.drop_last();
        assert(spec_obliges(earlier, full, generator)) by {
            assert forall|k: int| 0 <= k < earlier.len() implies #[trigger] earlier[k]
                == spec_obliging(full[k], generator) by {
                assert(earlier[k] == responses[k]);
            }
        }
        lemma_obliging_run(root, devices, output_directory, generator, earlier);
        let run = spec_progress(start, earlier)->Pending_0;
        let requests = spec_requests(start, earlier);
        assert(full[earlier.len() as int] == run.awaiting) by {
            assert((requests + spec_outstanding(run, generator))[earlier.len() as int]
                == requests.last());
        }
        assert(responses.last() == responses[earlier.len() as int]);
        lemma_obliging_step(run, generator);
        if spec_outstanding(run, generator).len() > 0 {
            let next = run.resume(responses.last())->Pending_0;
            assert(spec_requests(start, responses) + spec_outstanding(next, generator) =~= full);
        } else {
            assert(requests + spec_outstanding(run, generator) =~= requests);
            assert(spec_requests(start, responses) =~= requests);
        }
    }
}

/// The requests that write a file of the kind `artifact`.
pub open spec fn spec_writing(artifact: Artifact) -> spec_fn(RequestView) -> bool {
    |request: RequestView| request.writes(artifact)
}

/// The requests that create a symbolic link.
pub open spec fn spec_linking() -> spec_fn(RequestView) -> bool {
    |request: RequestView| request is Symlink
}

/// Among the requests of one device, one writes a swap unit and one creates
/// a link; none writes the service template or the module directive.
proof fn lemma_handle_device_counts(output_directory: Seq<char>, device: DeviceView)
    ensures
        spec_handle_device(output_directory, device).filter(
            spec_writing(Artifact::SwapUnit),
        ).len() == 1,
        spec_handle_device(output_directory, device).filter(spec_linking()).len() == 1,
        spec_handle_device(output_directory, device).filter(
            spec_writing(Artifact::ServiceTemplate),
        ).len() == 0,
        spec_handle_device(output_directory, device).filter(
            spec_writing(Artifact::ModulesLoad),
        ).len() == 0,
{
    let batch = spec_handle_device(output_directory, device);
    lemma_filter_four(batch, spec_writing(Artifact::SwapUnit));
    lemma_filter_four(batch, spec_linking());
    lemma_filter_four(batch, spec_writing(Artifact::ServiceTemplate));
    lemma_filter_four(batch, spec_writing(Artifact::ModulesLoad));
}

/// How many of up to four requests satisfy a predicate.
proof fn lemma_filter_four(requests: Seq<RequestView>, pred: spec_fn(RequestView) -> bool)
    requires
        requests.len() <= 4,
    ensures
        requests.filter(pred).len() == (if requests.len() > 0 && pred(requests[0]) {
            1nat
        } else {
            0
        }) + (if requests.len() > 1 && pred(requests[1]) {
            1nat
        } else {
            0
        }) + (if requests.len() > 2 && pred(requests[2]) {
            1nat
        } else {
            0
        }) + (if requests.len() > 3 && pred(requests[3]) {
            1nat
        } else {
            0
        }),
    decreases requests.len(),
{
    reveal(Seq::filter);
    if requests.len() > 0 {
        lemma_filter_four(requests.drop_last(), pred);
    }
}

/// Among the requests of the devices, as many satisfy a predicate as there
/// are devices, if one of the requests of each device does.
proof fn lemma_one_for_each_device(
    output_directory: Seq<char>,
    devices: Seq<DeviceView>,
    pred: spec_fn(RequestView) -> bool,
)
    requires
        forall|device: DeviceView|
            (#[trigger] spec_handle_device(output_directory, device)).filter(pred).len() == 1,
    ensures
        spec_device_requests(output_directory, devices).filter(pred).len() == devices.len(),
    decreases devices.len(),
{
    if devices.len() > 0 {
        lemma_one_for_each_device(output_directory, devices.drop_first(), pred);
        Seq::filter_distributes_over_add(
            spec_handle_device(output_directory, devices.first()),
            spec_device_requests(output_directory, devices.drop_first()),
            pred,
        );
    } else {
        reveal(Seq::filter);
    }
}

/// Among the requests of the devices, none satisfies a predicate that none
/// of the requests of any one device satisfies.
proof fn lemma_none_for_any_device(
    output_directory: Seq<char>,
    devices: Seq<DeviceView>,
    pred: spec_fn(RequestView) -> bool,
)
    requires
        forall|device: DeviceView|
            (#[trigger] spec_handle_device(output_directory, device)).filter(pred).len() == 0,
    ensures
        spec_device_requests(output_directory, devices).filter(pred).len() == 0,
    decreases devices.len(),
{
    if devices.len() > 0 {
        lemma_none_for_any_device(output_directory, devices.drop_first(), pred);
        Seq::filter_distributes_over_add(
            spec_handle_device(output_directory, devices.first()),
            spec_device_requests(output_directory, devices.drop_first()),
            pred,
        );
    } else {
        reveal(Seq::filter);
    }
}

/// A full run writes one swap unit and creates one link for each device,
/// and writes one service template and one module directive, whatever the
/// devices are and in whatever order they come.
pub proof fn lemma_full_run_counts(
    root: Seq<char>,
    devices: Seq<DeviceView>,
    output_directory: Seq<char>,
    generator: Seq<char>,
)
    ensures
        spec_full_run(root, devices, output_directory, generator).filter(
            spec_writing(Artifact::SwapUnit),
        ).len() == devices.len(),
        spec_full_run(root, devices, output_directory, generator).filter(spec_linking()).len()
            == devices.len(),
        spec_full_run(root, devices, output_directory, generator).filter(
            spec_writing(Artifact::ServiceTemplate),
        ).len() == 1,
        spec_full_run(root, devices, output_directory, generator).filter(
            spec_writing(Artifact::ModulesLoad),
        ).len() == 1,
{
    let probe = seq![RequestView::DetectContainer];
    let setup = spec_device_requests(output_directory, devices);
    let resolve = seq![RequestView::ResolveExecutable];
    let closing = spec_closing(root, output_directory, generator);
    assert forall|device: DeviceView| #![auto]
        spec_handle_device(output_directory, device).filter(
            spec_writing(Artifact::SwapUnit),
        ).len() == 1 && spec_handle_device(output_directory, device).filter(spec_linking()).len()
            == 1 && spec_handle_device(output_directory, device).filter(
            spec_writing(Artifact::ServiceTemplate),
        ).len() == 0 && spec_handle_device(output_directory, device).filter(
            spec_writing(Artifact::ModulesLoad),
        ).len() == 0 by {
        lemma_handle_device_counts(output_directory, device);
    }
    lemma_one_for_each_device(output_directory, devices, spec_writing(Artifact::SwapUnit));
    lemma_one_for_each_device(output_directory, devices, spec_linking());
    lemma_none_for_any_device(output_directory, devices, spec_writing(Artifact::ServiceTemplate));
    lemma_none_for_any_device(output_directory, devices, spec_writing(Artifact::ModulesLoad));
    lemma_full_run_count(probe, setup, resolve, closing, spec_writing(Artifact::SwapUnit));
    lemma_full_run_count(probe, setup, resolve, closing, spec_linking());
    lemma_full_run_count(probe, setup, resolve, closing, spec_writing(Artifact::ServiceTemplate));
    lemma_full_run_count(probe, setup, resolve, closing, spec_writing(Artifact::ModulesLoad));
    lemma_filter_four(probe, spec_writing(Artifact::SwapUnit));
    lemma_filter_four(probe, spec_linking());
    lemma_filter_four(probe, spec_writing(Artifact::ServiceTemplate));
    lemma_filter_four(probe, spec_writing(Artifact::ModulesLoad));
    lemma_filter_four(resolve, spec_writing(Artifact::SwapUnit));
    lemma_filter_four(resolve, spec_linking());
    lemma_filter_four(resolve, spec_writing(Artifact::ServiceTemplate));
    lemma_filter_four(resolve, spec_writing(Artifact::ModulesLoad));
    lemma_filter_four(closing, spec_writing(Artifact::SwapUnit));
    lemma_filter_four(closing, spec_linking());
    lemma_filter_four(closing, spec_writing(Artifact::ServiceTemplate));
    lemma_filter_four(closing, spec_writing(Artifact::ModulesLoad));
}

/// The requests of a full run that satisfy a predicate are those of its
/// four parts.
proof fn lemma_full_run_count(
    probe: Seq<RequestView>,
    setup: Seq<RequestView>,
    resolve: Seq<RequestView>,
    closing: Seq<RequestView>,
    pred: spec_fn(RequestView) -> bool,
)
    ensures
        (probe + setup + resolve + closing).filter(pred).len() == probe.filter(pred).len()
            + setup.filter(pred).len() + resolve.filter(pred).len() + closing.filter(pred).len(),
{
    Seq::filter_distributes_over_add(probe, setup, pred);
    Seq::filter_distributes_over_add(probe + setup, resolve, pred);
    Seq::filter_distributes_over_add(probe + setup + resolve, closing, pred);
}

/// The requests of two lists of devices, one after the other, are those
/// of the one list followed by those of the other.
proof fn lemma_device_requests_concat(
    output_directory: Seq<char>,
    first: Seq<DeviceView>,
    second: Seq<DeviceView>,
)
    ensures
        spec_device_requests(output_directory, first + second) == spec_device_requests(
            output_directory,
            first,
        ) + spec_device_requests(output_directory, second),
    decreases first.len(),
{
    if first.len() == 0 {
        assert(first + second =~= second);
        assert(spec_device_requests(output_directory, first) + spec_device_requests(
            output_directory,
            second,
        ) =~= spec_device_requests(output_directory, second));
    } else {
        assert((first + second).drop_first() =~= first.drop_first() + second);
        lemma_device_requests_concat(output_directory, first.drop_first(), second);
        assert(spec_device_requests(output_directory, first + second) =~= spec_device_requests(
            output_directory,
            first,
        ) + spec_device_requests(output_directory, second));
    }
}

/// Two lists that hold the same devices, each as often as the other, give
/// the same requests, each as often as the other.
proof fn lemma_device_requests_permute(
    output_directory: Seq<char>,
    first: Seq<DeviceView>,
    second: Seq<DeviceView>,
)
    requires
        first.to_multiset() == second.to_multiset(),
    ensures
        spec_device_requests(output_directory, first).to_multiset() == spec_device_requests(
            output_directory,
            second,
        ).to_multiset(),
    decreases first.len(),
{
    broadcast use vstd::multiset::group_multiset_axioms;

    to_multiset_len(first);
    to_multiset_len(second);
    if first.len() > 0 {
        let device = first.first();
        let rest = first.drop_first();
        assert(first.remove(0) =~= rest);
        to_multiset_remove(first, 0);
        assert(first.contains(device));
        to_multiset_contains(first, device);
        to_multiset_contains(second, device);
        let at = second.lemma_contains_to_index(device);
        let other = second.remove(at);
        to_multiset_remove(second, at);
        lemma_device_requests_permute(output_directory, rest, other);

        let before = second.take(at);
        let after = second.skip(at + 1);
        let one = seq![device];
        assert(second =~= before + one + after);
        assert(other =~= before + after);
        assert(one.drop_first() =~= Seq::empty());
        let mine = spec_handle_device(output_directory, device);
        assert(spec_device_requests(output_directory, one.drop_first()) =~= Seq::empty());
        assert(spec_device_requests(output_directory, one) =~= mine);
        lemma_device_requests_concat(output_directory, before, one);
        lemma_device_requests_concat(output_directory, before + one, after);
        lemma_device_requests_concat(output_directory, before, after);
        let head = spec_device_requests(output_directory, before);
        let tail = spec_device_requests(output_directory, after);
        let others = spec_device_requests(output_directory, rest);
        lemma_multiset_commutative(mine, others);
        lemma_multiset_commutative(head, mine);
        lemma_multiset_commutative(head + mine, tail);
        lemma_multiset_commutative(head, tail);
        assert(spec_device_requests(output_directory, first).to_multiset()
            =~= spec_device_requests(output_directory, second).to_multiset());
    }
}

/// The order of the devices decides the order of the requests and nothing
/// else: two lists that hold the same devices, each as often as the other,
/// give full runs that hold the same requests, each as often as the other.
pub proof fn lemma_order_is_immaterial(
    root: Seq<char>,
    first: Seq<DeviceView>,
    second: Seq<DeviceView>,
    output_directory: Seq<char>,
    generator: Seq<char>,
)
    requires
        first.to_multiset() == second.to_multiset(),
    ensures
        spec_full_run(root, first, output_directory, generator).to_multiset() == spec_full_run(
            root,
            second,
            output_directory,
            generator,
        ).to_multiset(),
{
    broadcast use vstd::multiset::group_multiset_axioms;

    let probe = seq![RequestView::DetectContainer];
    let resolve = seq![RequestView::ResolveExecutable];
    let closing = spec_closing(root, output_directory, generator);
    let one = spec_device_requests(output_directory, first);
    let other = spec_device_requests(output_directory, second);
    lemma_device_requests_permute(output_directory, first, second);
    lemma_multiset_commutative(probe, one);
    lemma_multiset_commutative(probe + one, resolve);
    lemma_multiset_commutative(probe + one + resolve, closing);
    lemma_multiset_commutative(probe, other);
    lemma_multiset_commutative(probe + other, resolve);
    lemma_multiset_commutative(probe + other + resolve, closing);
    assert(spec_full_run(root, first, output_directory, generator).to_multiset() =~= spec_full_run(
        root,
        second,
        output_directory,
        generator,
    ).to_multiset());
}

} // verus!
