//! The probe: restoring a saved state, advancing it by exact frames and reading memory, as one
//! operation on a frozen machine. An adapter with a probe of its own makes it; for others it is
//! composed of single calls.

use vstd::prelude::*;
use crate::encoding;
use crate::json::{Json, JsonView};
use crate::live::frozen;
use crate::live::link;
use crate::live::link::{EmulatorLink, LinkError, LinkErrorView, LinkStep, OffersView};
use crate::live::temporal::finish_with_cleanup;
use crate::live::tools;
use crate::live::tools::ToolOutput;
use crate::text;

verus! {

/// The methods that a composed probe needs.
pub open spec fn composes(methods: Seq<Seq<char>>) -> bool {
    &&& methods.contains("status"@)
    &&& methods.contains("pause"@)
    &&& methods.contains("resume"@)
    &&& methods.contains("load_state"@)
    &&& methods.contains("step"@)
    &&& methods.contains("read_memory"@)
}

/// Whether methods make a probe, their own or a composed one.
pub open spec fn offers_probe(methods: Seq<Seq<char>>, frame_step_available: bool) -> bool {
    methods.contains("probe"@) || (frame_step_available && composes(methods))
}

/// Whether methods make a probe, their own or a composed one.
pub fn probe_available_for_methods(methods: &[String], frame_step_available: bool) -> (r: bool)
    ensures
        r == offers_probe(text::text_views(methods@), frame_step_available),
{
    link::has_text(methods, "probe") || (frame_step_available && link::has_text(methods, "status")
        && link::has_text(methods, "pause") && link::has_text(methods, "resume") && link::has_text(
        methods,
        "load_state",
    ) && link::has_text(methods, "step") && link::has_text(methods, "read_memory"))
}

/// Whether a link can make a probe.
pub fn probe_available<L: EmulatorLink>(link: &L) -> (r: bool)
    ensures
        r == offers_probe(link.offers().methods, true),
{
    probe_available_for_methods(link.capabilities().methods.as_slice(), true)
}

/// The size that is known of a kind of memory: that of its first region.
pub open spec fn known_size(regions: Seq<(Seq<char>, u64)>, memory_type: Seq<char>) -> Option<u64>
    decreases regions.len(),
{
    if regions.len() == 0 {
        None
    } else if regions[0].0 == memory_type {
        Some(regions[0].1)
    } else {
        known_size(regions.drop_first(), memory_type)
    }
}

fn size_of_memory<L: EmulatorLink>(link: &L, memory_type: &str) -> (r: Option<u64>)
    ensures
        r == known_size(link.offers().regions, memory_type@),
{
    let capabilities = link.capabilities();
    let regions = &capabilities.memory_regions;
    let ghost shown = link::region_views(regions@);
    let mut i: usize = 0;
    assert(shown.skip(0) =~= shown);
    while i < regions.len()
        invariant
            i <= regions.len(),
            shown == link::region_views(regions@),
            shown == link.offers().regions,
            known_size(shown, memory_type@) == known_size(shown.skip(i as int), memory_type@),
        decreases regions.len() - i,
    {
        proof {
            assert(shown.skip(i as int)[0] == shown[i as int]);
            assert(shown.skip(i as int).drop_first() =~= shown.skip(i + 1));
        }
        if text::same(regions[i].memory_type.as_str(), memory_type) {
            return Some(regions[i].size);
        }
        i += 1;
    }
    None
}

/// The message that a kind of memory is not there.
pub open spec fn unknown_message(offers: OffersView, memory_type: Seq<char>) -> Seq<char> {
    (("unknown probe memory_type '"@ + memory_type) + "'; available: "@) + text::joined(
        offers.memory_types,
        ", "@,
    )
}

/// The message that a range ends beyond its memory.
pub open spec fn range_message(memory_type: Seq<char>, address: u64, length: u64, size: u64) -> Seq<
    char,
> {
    let range = (("probe range "@ + text::prefixed_hex(address as nat)) + ".."@)
        + text::prefixed_hex((address + length) as nat);
    (((range + " exceeds "@) + memory_type) + " size "@) + text::prefixed_hex(size as nat)
}

/// Why a probe cannot read a range, as far as the offers of the adapter tell.
pub open spec fn span_check(
    offers: OffersView,
    memory_type: Seq<char>,
    address: u64,
    length: u64,
) -> Result<(), LinkErrorView> {
    if memory_type.len() == 0 {
        Err(link::bad_params_view("probe memory_type must not be empty"@))
    } else if length == 0 {
        Err(link::bad_params_view("probe length must be greater than zero"@))
    } else if address + length > u64::MAX {
        Err(link::bad_params_view("probe address range overflows u64"@))
    } else if offers.memory_types.len() > 0 && !offers.memory_types.contains(memory_type) {
        Err(link::bad_params_view(unknown_message(offers, memory_type)))
    } else {
        match known_size(offers.regions, memory_type) {
            Some(size) => if address + length > size {
                Err(link::bad_params_view(range_message(memory_type, address, length, size)))
            } else {
                Ok(())
            },
            None => Ok(()),
        }
    }
}

fn validate_probe_span<L: EmulatorLink>(link: &L, memory_type: &str, address: u64, length: u64) -> (r:
    Result<(), LinkError>)
    ensures
        link::done_view(r) == span_check(link.offers(), memory_type@, address, length),
{
    if memory_type.is_empty() {
        return Err(LinkError::emulator("bad_params", "probe memory_type must not be empty"));
    }
    if length == 0 {
        return Err(LinkError::emulator("bad_params", "probe length must be greater than zero"));
    }
    let end: u64 = match address.checked_add(length) {
        Some(end) => end,
        None => {
            return Err(LinkError::emulator("bad_params", "probe address range overflows u64"));
        },
    };
    let capabilities = link.capabilities();
    if capabilities.memory_types.len() > 0 && !link::has_text(
        capabilities.memory_types.as_slice(),
        memory_type,
    ) {
        let m = text::join("unknown probe memory_type '", memory_type);
        let m = text::join(m.as_str(), "'; available: ");
        let kinds = text::join_all(capabilities.memory_types.as_slice(), ", ");
        return Err(
            LinkError::emulator("bad_params", text::join(m.as_str(), kinds.as_str()).as_str()),
        );
    }
    if let Some(size) = size_of_memory(link, memory_type) {
        if end > size {
            let m = text::join("probe range ", text::prefixed_hex_of(address).as_str());
            let m = text::join(m.as_str(), "..");
            let m = text::join(m.as_str(), text::prefixed_hex_of(end).as_str());
            let m = text::join(m.as_str(), " exceeds ");
            let m = text::join(m.as_str(), memory_type);
            let m = text::join(m.as_str(), " size ");
            let m = text::join(m.as_str(), text::prefixed_hex_of(size).as_str());
            return Err(LinkError::emulator("bad_params", m.as_str()));
        }
    }
    Ok(())
}

/// The hexadecimal text of a memory reply, of exactly the length asked for.
pub open spec fn exact_hex(response: JsonView, length: u64, operation: Seq<char>) -> Result<
    Seq<char>,
    LinkErrorView,
> {
    match response.text_field("hex"@) {
        None => Err(LinkErrorView::Protocol(operation + " response did not contain hex"@)),
        Some(encoded) => match encoding::hex_bytes(encoded) {
            None => Err(LinkErrorView::Protocol(operation + " returned invalid hex"@)),
            Some(bytes) => if bytes.len() != length {
                Err(
                    LinkErrorView::Protocol(
                        (((operation + " returned "@) + text::decimal(bytes.len() as int))
                            + " bytes, expected "@) + text::decimal(length as int),
                    ),
                )
            } else {
                Ok(encoded)
            },
        },
    }
}

fn exact_memory_hex(response: &Json, length: u64, operation: &str) -> (r: Result<
    String,
    LinkError,
>)
    ensures
        match (r, exact_hex(response@, length, operation@)) {
            (Ok(s), Ok(t)) => s@ == t,
            (Err(e), Err(f)) => e@ == f,
            _ => false,
        },
{
    let encoded = match response.get_str("hex") {
        Some(s) => s,
        None => {
            return Err(LinkError::Protocol(text::join(operation, " response did not contain hex")));
        },
    };
    let bytes = match encoding::hex_decode(encoded) {
        Some(bytes) => bytes,
        None => {
            return Err(LinkError::Protocol(text::join(operation, " returned invalid hex")));
        },
    };
    if bytes.len() as u64 != length {
        let m = text::join(operation, " returned ");
        let m = text::join(m.as_str(), text::decimal_of(bytes.len() as u64).as_str());
        let m = text::join(m.as_str(), " bytes, expected ");
        let m = text::join(m.as_str(), text::decimal_of(length).as_str());
        return Err(LinkError::Protocol(m));
    }
    Ok(encoded.to_owned())
}

/// The message that a probe reported other frames than it was asked for.
pub open spec fn echo_message(start: Seq<char>, reported: u64, requested: u64) -> Seq<char> {
    ((start + text::decimal(reported as int)) + " requested frames, expected "@) + text::decimal(
        requested as int,
    )
}

/// The message that a probe reported a number of frames that its status excludes.
pub open spec fn count_message(start: Seq<char>, completed: u64, requested: u64) -> Seq<char> {
    ((start + text::decimal(completed as int)) + " of "@) + text::decimal(requested as int)
}

fn echo_text(start: &str, reported: u64, requested: u64) -> (r: String)
    ensures
        r@ == echo_message(start@, reported, requested),
{
    let m = text::join(start, text::decimal_of(reported).as_str());
    let m = text::join(m.as_str(), " requested frames, expected ");
    text::join(m.as_str(), text::decimal_of(requested).as_str())
}

fn count_text(start: &str, completed: u64, requested: u64) -> (r: String)
    ensures
        r@ == count_message(start@, completed, requested),
{
    let m = text::join(start, text::decimal_of(completed).as_str());
    let m = text::join(m.as_str(), " of ");
    text::join(m.as_str(), text::decimal_of(requested).as_str())
}

/// Whether the reply of a completed probe of an adapter is a whole one.
pub open spec fn completed_check(response: JsonView, requested: u64, length: u64) -> Result<
    (),
    LinkErrorView,
> {
    match (
        response.unsigned_field("requested_frames"@),
        response.unsigned_field("completed_frames"@),
    ) {
        (None, _) => Err(
            LinkErrorView::Protocol("completed native probe did not report requested_frames"@),
        ),
        (_, None) => Err(
            LinkErrorView::Protocol("completed native probe did not report completed_frames"@),
        ),
        (Some(reported), Some(completed)) => if reported != requested {
            Err(
                LinkErrorView::Protocol(
                    echo_message("native probe echoed "@, reported, requested),
                ),
            )
        } else if completed != requested {
            Err(
                LinkErrorView::Protocol(
                    count_message("native probe reported "@, completed, requested)
                        + " frames with status completed"@,
                ),
            )
        } else {
            match exact_hex(response, length, "native probe"@) {
                Ok(_) => Ok(()),
                Err(e) => Err(e),
            }
        },
    }
}

/// Whether the reply of an interrupted probe of an adapter agrees with what was asked.
pub open spec fn interrupted_check(response: JsonView, requested: u64, length: u64) -> Result<
    (),
    LinkErrorView,
> {
    match (
        response.unsigned_field("requested_frames"@),
        response.unsigned_field("completed_frames"@),
    ) {
        (Some(reported), _) if reported != requested => Err(
            LinkErrorView::Protocol(
                echo_message("interrupted native probe echoed "@, reported, requested),
            ),
        ),
        (_, Some(completed)) if completed > requested => Err(
            LinkErrorView::Protocol(
                count_message("interrupted native probe reported "@, completed, requested)
                    + " frames"@,
            ),
        ),
        _ => if response.field("hex"@) is Some {
            match exact_hex(response, length, "interrupted native probe"@) {
                Ok(_) => Ok(()),
                Err(e) => Err(e),
            }
        } else {
            Ok(())
        },
    }
}

/// Whether the reply of an adapter's probe is one that a probe may end with.
pub open spec fn terminal_check(response: JsonView, requested: u64, length: u64) -> Result<
    (),
    LinkErrorView,
> {
    match response.text_field("status"@) {
        None => Err(LinkErrorView::Protocol("native probe response did not contain status"@)),
        Some(status) => if status == "completed"@ {
            completed_check(response, requested, length)
        } else if status == "interrupted"@ {
            interrupted_check(response, requested, length)
        } else {
            Err(
                LinkErrorView::Protocol(
                    "native probe returned unknown terminal status: "@ + status,
                ),
            )
        },
    }
}

fn validate_completed(response: &Json, requested_frames: u64, length: u64) -> (r: Result<
    (),
    LinkError,
>)
    ensures
        link::done_view(r) == completed_check(response@, requested_frames, length),
{
    let reported: u64 = match response.get_u64("requested_frames") {
        Some(n) => n,
        None => {
            return Err(
                LinkError::protocol("completed native probe did not report requested_frames"),
            );
        },
    };
    let completed: u64 = match response.get_u64("completed_frames") {
        Some(n) => n,
        None => {
            return Err(
                LinkError::protocol("completed native probe did not report completed_frames"),
            );
        },
    };
    if reported != requested_frames {
        return Err(
            LinkError::Protocol(echo_text("native probe echoed ", reported, requested_frames)),
        );
    }
    if completed != requested_frames {
        let m = count_text("native probe reported ", completed, requested_frames);
        return Err(
            LinkError::Protocol(text::join(m.as_str(), " frames with status completed")),
        );
    }
    exact_memory_hex(response, length, "native probe")?;
    Ok(())
}

fn validate_interrupted(response: &Json, requested_frames: u64, length: u64) -> (r: Result<
    (),
    LinkError,
>)
    ensures
        link::done_view(r) == interrupted_check(response@, requested_frames, length),
{
    if let Some(reported) = response.get_u64("requested_frames") {
        if reported != requested_frames {
            return Err(
                LinkError::Protocol(
                    echo_text("interrupted native probe echoed ", reported, requested_frames),
                ),
            );
        }
    }
    if let Some(completed) = response.get_u64("completed_frames") {
        if completed > requested_frames {
            let m = count_text("interrupted native probe reported ", completed, requested_frames);
            return Err(LinkError::Protocol(text::join(m.as_str(), " frames")));
        }
    }
    if response.get("hex").is_some() {
        exact_memory_hex(response, length, "interrupted native probe")?;
    }
    Ok(())
}

fn validate_native_probe_terminal(response: &Json, requested_frames: u64, length: u64) -> (r:
    Result<(), LinkError>)
    ensures
        link::done_view(r) == terminal_check(response@, requested_frames, length),
{
    let status = match response.get_str("status") {
        Some(status) => status,
        None => {
            return Err(LinkError::protocol("native probe response did not contain status"));
        },
    };
    if text::same(status, "completed") {
        validate_completed(response, requested_frames, length)
    } else if text::same(status, "interrupted") {
        validate_interrupted(response, requested_frames, length)
    } else {
        Err(
            LinkError::Protocol(
                text::join("native probe returned unknown terminal status: ", status),
            ),
        )
    }
}

/// What an observed state says of an operation that has to end frozen.
pub open spec fn boundary_check(observed: Seq<char>, operation: Seq<char>) -> Result<
    (),
    LinkErrorView,
> {
    if observed == "frozen"@ {
        Ok(())
    } else {
        Err(
            LinkErrorView::Protocol(
                (("composed probe requires "@ + operation) + " to terminate frozen, observed "@)
                    + observed,
            ),
        )
    }
}

/// Making sure that an operation ended frozen: by its reply, or by asking where that is silent.
pub open spec fn boundary_run(
    h: Seq<LinkStep>,
    n: int,
    response: JsonView,
    operation: Seq<char>,
) -> Option<(int, Result<(), LinkErrorView>)> {
    match response.text_field("state"@) {
        Some(observed) => Some((n, boundary_check(observed, operation))),
        None => if !link::is_call(h, n, "status"@, JsonView::object()) {
            None
        } else {
            match link::reply_at(h, n) {
                Err(e) => Some((n + 1, Err(e))),
                Ok(status) => Some(
                    (
                        n + 1,
                        boundary_check(
                            match status.text_field("state"@) {
                                Some(observed) => observed,
                                None => "unknown"@,
                            },
                            operation,
                        ),
                    ),
                ),
            }
        },
    }
}

fn check_boundary(observed: &str, operation: &str) -> (r: Result<(), LinkError>)
    ensures
        link::done_view(r) == boundary_check(observed@, operation@),
{
    if text::same(observed, "frozen") {
        Ok(())
    } else {
        let m = text::join("composed probe requires ", operation);
        let m = text::join(m.as_str(), " to terminate frozen, observed ");
        Err(LinkError::Protocol(text::join(m.as_str(), observed)))
    }
}

fn verify_frozen_boundary<L: EmulatorLink>(link: &mut L, response: &Json, operation: &str) -> (r:
    Result<(), LinkError>)
    ensures
        link::goes_on(old(link).history(), final(link).history()),
        link::is_current(*old(link)) ==> link::is_current(*final(link)),
        forall|h: Seq<LinkStep>|
            link::goes_on(final(link).history(), h) ==> #[trigger] boundary_run(
                h,
                old(link).history().len() as int,
                response@,
                operation@,
            ) == Some((final(link).history().len() as int, link::done_view(r))),
{
    let ghost n = link.history().len() as int;
    if let Some(observed) = response.get_str("state") {
        return check_boundary(observed, operation);
    }
    let reply = link.call("status", Json::object());
    proof {
        let here = link.history();
        assert forall|h: Seq<LinkStep>| link::goes_on(here, h) implies {
            &&& link::is_call(h, n, "status"@, JsonView::object())
            &&& #[trigger] link::reply_at(h, n) == link::reply_view(reply)
        } by {
            assert(h[n] == here[n]);
        }
    }
    match reply {
        Err(error) => Err(error),
        Ok(status) => match status.get_str("state") {
            Some(observed) => check_boundary(observed, operation),
            None => check_boundary("unknown", operation),
        },
    }
}

/// The probe of an adapter: its reply has to be whole, and the machine frozen after it.
pub open spec fn native_run(
    h: Seq<LinkStep>,
    n: int,
    params: JsonView,
    frame: u64,
    length: u64,
) -> Option<(int, Result<JsonView, LinkErrorView>)> {
    if !link::is_call(h, n, "probe"@, params) {
        None
    } else {
        match link::reply_at(h, n) {
            Err(e) => Some((n + 1, Err(e))),
            Ok(response) => if !link::is_call(h, n + 1, "status"@, JsonView::object()) {
                None
            } else {
                match link::reply_at(h, n + 1) {
                    Err(e) => Some((n + 2, Err(e))),
                    Ok(terminal) => match boundary_run(h, n + 2, terminal, "native probe"@) {
                        None => None,
                        Some((m, Err(e))) => Some((m, Err(e))),
                        Some((m, Ok(()))) => Some(
                            (
                                m,
                                match terminal_check(response, frame, length) {
                                    Err(e) => Err(e),
                                    Ok(()) => Ok(
                                        response.put("state"@, JsonView::Str("frozen"@)),
                                    ),
                                },
                            ),
                        ),
                    },
                }
            },
        }
    }
}

fn native_probe<L: EmulatorLink>(link: &mut L, params: Json, frame: u64, length: u64) -> (r: Result<
    ToolOutput,
    LinkError,
>)
    ensures
        link::goes_on(old(link).history(), final(link).history()),
        native_run(
            final(link).history(),
            old(link).history().len() as int,
            params@,
            frame,
            length,
        ) matches Some((m, expected)) && m == final(link).history().len() && tools::yields(
            r,
            expected,
        ),
{
    let ghost n = link.history().len() as int;
    let response = match link.call("probe", params) {
        Ok(value) => value,
        Err(error) => {
            return Err(error);
        },
    };
    let ghost h1 = link.history();
    let terminal = match link.call("status", Json::object()) {
        Ok(value) => value,
        Err(error) => {
            assert(link.history()[n] == h1[n]);
            return Err(error);
        },
    };
    let ghost h2 = link.history();
    let boundary = verify_frozen_boundary(link, &terminal, "native probe");
    proof {
        let h3 = link.history();
        assert(link::goes_on(h3, h3));
        assert(h3[n] == h2[n] && h2[n] == h1[n]);
        assert(h3[n + 1] == h2[n + 1]);
    }
    boundary?;
    validate_native_probe_terminal(&response, frame, length)?;
    Ok(ToolOutput::Json(response.put("state", Json::text("frozen"))))
}

/// Bringing the machine to a frozen boundary; the result says whether it was running.
pub open spec fn entry_run(h: Seq<LinkStep>, n: int) -> Option<(int, Result<bool, LinkErrorView>)> {
    if !link::is_call(h, n, "status"@, JsonView::object()) {
        None
    } else {
        match link::reply_at(h, n) {
            Err(e) => Some((n + 1, Err(e))),
            Ok(before) => match before.text_field("state"@) {
                None => Some(
                    (
                        n + 1,
                        Err(
                            LinkErrorView::Protocol(
                                "composed probe status response did not contain state"@,
                            ),
                        ),
                    ),
                ),
                Some(state) => if state == "frozen"@ {
                    Some((n + 1, Ok(false)))
                } else if state != "running"@ {
                    Some(
                        (
                            n + 1,
                            Err(
                                LinkErrorView::Protocol(
                                    "composed probe cannot establish a frozen boundary from state "@
                                        + state,
                                ),
                            ),
                        ),
                    )
                } else if !link::is_call(h, n + 1, "pause"@, JsonView::object()) {
                    None
                } else {
                    match link::reply_at(h, n + 1) {
                        Err(e) => Some((n + 2, Err(e))),
                        Ok(paused) => match boundary_run(h, n + 2, paused, "pause"@) {
                            None => None,
                            Some((m, Err(e))) => Some((m, Err(e))),
                            Some((m, Ok(()))) => Some((m, Ok(true))),
                        },
                    }
                },
            },
        }
    }
}

/// What entering a frozen boundary comes to.
pub open spec fn entered_view(r: Result<bool, LinkError>) -> Result<bool, LinkErrorView> {
    match r {
        Ok(b) => Ok(b),
        Err(e) => Err(e@),
    }
}

fn enter<L: EmulatorLink>(link: &mut L) -> (r: Result<bool, LinkError>)
    ensures
        link::goes_on(old(link).history(), final(link).history()),
        link::is_current(*final(link)),
        final(link).history().len() > old(link).history().len(),
        forall|h: Seq<LinkStep>|
            link::goes_on(final(link).history(), h) ==> #[trigger] entry_run(
                h,
                old(link).history().len() as int,
            ) == Some((final(link).history().len() as int, entered_view(r))),
{
    let ghost n = link.history().len() as int;
    let reply = link.call("status", Json::object());
    let ghost h1 = link.history();
    proof {
        assert forall|h: Seq<LinkStep>| link::goes_on(h1, h) implies {
            &&& link::is_call(h, n, "status"@, JsonView::object())
            &&& #[trigger] link::reply_at(h, n) == link::reply_view(reply)
        } by {
            assert(h[n] == h1[n]);
        }
    }
    let before = reply?;
    let state = match before.get_str("state") {
        Some(state) => state,
        None => {
            return Err(
                LinkError::protocol("composed probe status response did not contain state"),
            );
        },
    };
    if text::same(state, "frozen") {
        return Ok(false);
    }
    if !text::same(state, "running") {
        return Err(
            LinkError::Protocol(
                text::join(
                    "composed probe cannot establish a frozen boundary from state ",
                    state,
                ),
            ),
        );
    }
    let reply = link.call("pause", Json::object());
    let ghost h2 = link.history();
    proof {
        assert forall|h: Seq<LinkStep>| link::goes_on(h2, h) implies {
            &&& link::is_call(h, n, "status"@, JsonView::object())
            &&& link::reply_at(h, n) == Ok::<_, LinkErrorView>(before@)
            &&& link::is_call(h, n + 1, "pause"@, JsonView::object())
            &&& #[trigger] link::reply_at(h, n + 1) == link::reply_view(reply)
        } by {
            assert(h[n] == h2[n] && h2[n] == h1[n]);
            assert(h[n + 1] == h2[n + 1]);
        }
    }
    let paused = reply?;
    let boundary = verify_frozen_boundary(link, &paused, "pause");
    proof {
        let h3 = link.history();
        assert forall|h: Seq<LinkStep>| link::goes_on(h3, h) implies {
            &&& link::goes_on(h2, h)
            &&& #[trigger] boundary_run(h, n + 2, paused@, "pause"@) == Some(
                (h3.len() as int, link::done_view(boundary)),
            )
        } by {
            assert forall|i: int| 0 <= i < h2.len() implies #[trigger] h[i] == h2[i] by {
                assert(h[i] == h3[i]);
            }
        }
        assert forall|h: Seq<LinkStep>| link::goes_on(h3, h) implies #[trigger] entry_run(h, n)
            == Some(
            (
                h3.len() as int,
                match boundary {
                    Ok(()) => Ok(true),
                    Err(e) => Err(e@),
                },
            ),
        ) by {
            assert(boundary_run(h, n + 2, paused@, "pause"@) == Some(
                (h3.len() as int, link::done_view(boundary)),
            ));
            assert(link::reply_at(h, n + 1) == Ok::<_, LinkErrorView>(paused@));
        }
    }
    boundary?;
    Ok(true)
}

/// What a first read says of a range.
pub open spec fn preflight_fault(reply: Result<JsonView, LinkErrorView>, length: u64) -> Option<
    LinkErrorView,
> {
    match reply {
        Err(e) => Some(e),
        Ok(response) => match exact_hex(response, length, "probe preflight"@) {
            Err(e) => Some(e),
            Ok(_) => None,
        },
    }
}

/// The error of a preflight that failed, and after which a running machine could not be set
/// running again.
pub open spec fn restore_failed(primary: LinkErrorView, cleanup: LinkErrorView) -> LinkErrorView {
    LinkErrorView::Protocol(
        (("probe preflight failed: "@ + primary.sentence())
            + "; restoring the prior running state also failed: "@) + cleanup.sentence(),
    )
}

/// Making sure that a range can be read before anything is changed. A range of known size needs no
/// call. Where the read fails, a machine that was running runs again.
pub open spec fn preflight_run(
    h: Seq<LinkStep>,
    n: int,
    was_running: bool,
    memory_type: Seq<char>,
    address: u64,
    length: u64,
) -> Option<(int, Result<(), LinkErrorView>)> {
    if known_size(link::offers_at(h, n - 1).regions, memory_type) is Some {
        Some((n, Ok(())))
    } else if !link::is_call(
        h,
        n,
        "read_memory"@,
        tools::span_params(memory_type, address, length),
    ) {
        None
    } else {
        match preflight_fault(link::reply_at(h, n), length) {
            None => Some((n + 1, Ok(()))),
            Some(primary) => if !was_running {
                Some((n + 1, Err(primary)))
            } else if !link::is_call(h, n + 1, "resume"@, JsonView::object()) {
                None
            } else {
                Some(
                    (
                        n + 2,
                        match link::reply_at(h, n + 1) {
                            Ok(_) => Err(primary),
                            Err(cleanup) => Err(restore_failed(primary, cleanup)),
                        },
                    ),
                )
            },
        }
    }
}

fn combine_restore(primary: Option<LinkError>, cleanup: LinkError) -> (r: LinkError)
    ensures
        primary matches Some(p) ==> r@ == restore_failed(p@, cleanup@),
        primary is None ==> r@ == LinkErrorView::Protocol(
            "probe preflight cleanup failed while restoring the prior running state: "@
                + cleanup@.sentence(),
        ),
{
    match primary {
        Some(p) => {
            let m = text::join("probe preflight failed: ", p.message().as_str());
            let m = text::join(m.as_str(), "; restoring the prior running state also failed: ");
            LinkError::Protocol(text::join(m.as_str(), cleanup.message().as_str()))
        },
        None => LinkError::Protocol(
            text::join(
                "probe preflight cleanup failed while restoring the prior running state: ",
                cleanup.message().as_str(),
            ),
        ),
    }
}

fn preflight<L: EmulatorLink>(
    link: &mut L,
    was_running: bool,
    memory_type: &str,
    address: u64,
    length: u64,
) -> (r: Result<(), LinkError>)
    requires
        link::is_current(*old(link)),
    ensures
        link::goes_on(old(link).history(), final(link).history()),
        forall|h: Seq<LinkStep>|
            link::goes_on(final(link).history(), h) ==> #[trigger] preflight_run(
                h,
                old(link).history().len() as int,
                was_running,
                memory_type@,
                address,
                length,
            ) == Some((final(link).history().len() as int, link::done_view(r))),
{
    let ghost h0 = link.history();
    let ghost n = h0.len() as int;
    let ghost span = tools::span_params(memory_type@, address, length);
    let ghost offers = link.offers();
    proof {
        assert forall|h: Seq<LinkStep>| link::goes_on(h0, h) implies #[trigger] link::offers_at(
            h,
            n - 1,
        ) == offers by {
            assert(h[n - 1] == h0[n - 1]);
        }
    }
    if size_of_memory(link, memory_type).is_some() {
        return Ok(());
    }
    let reply = link.call("read_memory", tools::span_request(memory_type, address, length));
    let ghost h1 = link.history();
    let ghost given = link::reply_view(reply);
    proof {
        assert forall|h: Seq<LinkStep>| link::goes_on(h1, h) implies {
            &&& link::offers_at(h, n - 1) == offers
            &&& link::is_call(h, n, "read_memory"@, span)
            &&& #[trigger] link::reply_at(h, n) == given
        } by {
            assert(h[n] == h1[n]);
            assert(h[n - 1] == h1[n - 1]);
            assert(h1[n - 1] == h0[n - 1]);
        }
    }
    let outcome = match reply {
        Err(error) => Err(error),
        Ok(response) => match exact_memory_hex(&response, length, "probe preflight") {
            Err(error) => Err(error),
            Ok(_) => Ok(()),
        },
    };
    let primary = match outcome {
        Ok(()) => {
            return Ok(());
        },
        Err(primary) => primary,
    };
    let ghost fault = primary@;
    let cleanup = if was_running {
        match link.call("resume", Json::object()) {
            Ok(_) => Ok(()),
            Err(error) => Err(error),
        }
    } else {
        Ok(())
    };
    proof {
        let h2 = link.history();
        assert forall|h: Seq<LinkStep>| link::goes_on(h2, h) implies {
            &&& link::offers_at(h, n - 1) == offers
            &&& link::is_call(h, n, "read_memory"@, span)
            &&& preflight_fault(link::reply_at(h, n), length) == Some(fault)
            &&& (was_running ==> link::is_call(h, n + 1, "resume"@, JsonView::object()))
            &&& (was_running ==> #[trigger] link::reply_at(h, n + 1) == link::reply_at(h2, n + 1))
        } by {
            assert(h[n] == h2[n] && h2[n] == h1[n]);
            assert(h[n - 1] == h2[n - 1] && h2[n - 1] == h1[n - 1] && h1[n - 1] == h0[n - 1]);
            if was_running {
                assert(h[n + 1] == h2[n + 1]);
            }
        }
        assert forall|h: Seq<LinkStep>| link::goes_on(h2, h) implies #[trigger] preflight_run(
            h,
            n,
            was_running,
            memory_type@,
            address,
            length,
        ) == preflight_run(h2, n, was_running, memory_type@, address, length) by {
            assert(link::goes_on(h2, h2));
            assert(link::reply_at(h, n + 1) == link::reply_at(h, n + 1));
            assert(link::reply_at(h2, n + 1) == link::reply_at(h2, n + 1));
        }
        assert(link::goes_on(h2, h2));
    }
    let combine = |primary: Option<LinkError>, cleanup: LinkError| -> (r: LinkError)
        ensures
            primary matches Some(p) ==> r@ == restore_failed(p@, cleanup@),
        { combine_restore(primary, cleanup) };
    finish_with_cleanup(Err(primary), cleanup, combine)
}

/// Restoring the saved state and advancing it; the result is the reply of the advance.
pub open spec fn replay_run(h: Seq<LinkStep>, n: int, state: Seq<char>, frame: u64) -> Option<
    (int, Result<JsonView, LinkErrorView>),
> {
    if !link::is_call(h, n, "load_state"@, tools::path_params(state)) {
        None
    } else {
        match link::reply_at(h, n) {
            Err(e) => Some((n + 1, Err(e))),
            Ok(loaded) => match boundary_run(h, n + 1, loaded, "load_state"@) {
                None => None,
                Some((m, Err(e))) => Some((m, Err(e))),
                Some((m, Ok(()))) => if frame == 0 {
                    Some((m, Ok(no_advance())))
                } else if !link::is_call(h, m, "step"@, frozen::frames_params(frame)) {
                    None
                } else {
                    match link::reply_at(h, m) {
                        Err(e) => Some((m + 1, Err(e))),
                        Ok(response) => match boundary_run(h, m + 1, response, "step"@) {
                            None => None,
                            Some((k, Err(e))) => Some((k, Err(e))),
                            Some((k, Ok(()))) => Some((k, Ok(response))),
                        },
                    }
                },
            },
        }
    }
}

/// The reply of an advance of no frames, which needs no call.
pub open spec fn no_advance() -> JsonView {
    JsonView::object().with("status"@, JsonView::Str("completed"@)).with(
        "state"@,
        JsonView::Str("frozen"@),
    ).with("count"@, JsonView::Unsigned(0))
}

fn replay<L: EmulatorLink>(link: &mut L, state: &str, frame: u64) -> (r: Result<Json, LinkError>)
    ensures
        link::goes_on(old(link).history(), final(link).history()),
        forall|h: Seq<LinkStep>|
            link::goes_on(final(link).history(), h) ==> #[trigger] replay_run(
                h,
                old(link).history().len() as int,
                state@,
                frame,
            ) == Some((final(link).history().len() as int, link::reply_view(r))),
{
    let ghost n = link.history().len() as int;
    let reply = link.call("load_state", Json::object().with("path", Json::text(state)));
    let ghost h1 = link.history();
    proof {
        assert forall|h: Seq<LinkStep>| link::goes_on(h1, h) implies {
            &&& link::is_call(h, n, "load_state"@, tools::path_params(state@))
            &&& #[trigger] link::reply_at(h, n) == link::reply_view(reply)
        } by {
            assert(h[n] == h1[n]);
        }
    }
    let loaded = reply?;
    let boundary = verify_frozen_boundary(link, &loaded, "load_state");
    let ghost h2 = link.history();
    let ghost m = h2.len() as int;
    proof {
        assert forall|h: Seq<LinkStep>| link::goes_on(h2, h) implies {
            &&& link::is_call(h, n, "load_state"@, tools::path_params(state@))
            &&& link::reply_at(h, n) == Ok::<_, LinkErrorView>(loaded@)
            &&& #[trigger] boundary_run(h, n + 1, loaded@, "load_state"@) == Some(
                (m, link::done_view(boundary)),
            )
        } by {
            assert(h[n] == h2[n] && h2[n] == h1[n]);
        }
    }
    boundary?;
    if frame == 0 {
        return Ok(
            Json::object().with("status", Json::text("completed")).with(
                "state",
                Json::text("frozen"),
            ).with("count", Json::Unsigned(0)),
        );
    }
    let reply = link.call("step", Json::object().with("frames", Json::Unsigned(frame)));
    let ghost h3 = link.history();
    proof {
        assert forall|h: Seq<LinkStep>| link::goes_on(h3, h) implies {
            &&& link::goes_on(h2, h)
            &&& link::is_call(h, m, "step"@, frozen::frames_params(frame))
            &&& #[trigger] link::reply_at(h, m) == link::reply_view(reply)
        } by {
            assert(h[m] == h3[m]);
            assert forall|i: int| 0 <= i < h2.len() implies #[trigger] h[i] == h2[i] by {
                assert(h[i] == h3[i]);
            }
        }
    }
    let response = match reply {
        Ok(value) => value,
        Err(error) => {
            proof {
                assert forall|h: Seq<LinkStep>| link::goes_on(h3, h) implies #[trigger] replay_run(
                    h,
                    n,
                    state@,
                    frame,
                ) == Some((m + 1, Err::<JsonView, _>(error@))) by {
                    assert(link::reply_at(h, m) == link::reply_view(reply));
                    assert(boundary_run(h, n + 1, loaded@, "load_state"@) == Some(
                        (m, link::done_view(boundary)),
                    ));
                }
            }
            return Err(error);
        },
    };
    let stepped = verify_frozen_boundary(link, &response, "step");
    proof {
        let h4 = link.history();
        assert forall|h: Seq<LinkStep>| link::goes_on(h4, h) implies #[trigger] replay_run(
            h,
            n,
            state@,
            frame,
        ) == Some(
            (
                h4.len() as int,
                match stepped {
                    Ok(()) => Ok(response@),
                    Err(e) => Err(e@),
                },
            ),
        ) by {
            assert forall|i: int| 0 <= i < h3.len() implies #[trigger] h[i] == h3[i] by {
                assert(h[i] == h4[i]);
            }
            assert(link::goes_on(h3, h));
            assert(link::reply_at(h, m) == Ok::<_, LinkErrorView>(response@));
            assert(boundary_run(h, n + 1, loaded@, "load_state"@) == Some(
                (m, link::done_view(boundary)),
            ));
            assert(boundary_run(h, m + 1, response@, "step"@) == Some(
                (h4.len() as int, link::done_view(stepped)),
            ));
        }
    }
    stepped?;
    Ok(response)
}

/// The first number that an advance reports under a name that adapters use for its frames.
pub open spec fn reported_frames(advance: JsonView) -> Option<u64> {
    if advance.unsigned_field("completed_frames"@) is Some {
        advance.unsigned_field("completed_frames"@)
    } else if advance.unsigned_field("completed"@) is Some {
        advance.unsigned_field("completed"@)
    } else if advance.unsigned_field("advanced"@) is Some {
        advance.unsigned_field("advanced"@)
    } else if advance.unsigned_field("count"@) is Some {
        advance.unsigned_field("count"@)
    } else {
        advance.unsigned_field("frames_elapsed"@)
    }
}

/// How an advance ended.
pub open spec fn advance_status(advance: JsonView) -> Seq<char> {
    match advance.text_field("status"@) {
        Some(s) => s,
        None => "completed"@,
    }
}

/// The frames that an advance counts as: those it reports, else all of them if it completed. An
/// interrupted advance that reports none counts as more than any advance may.
pub open spec fn advanced_frames(advance: JsonView, frame: u64) -> u64 {
    match reported_frames(advance) {
        Some(n) => n,
        None => if advance_status(advance) == "completed"@ {
            frame
        } else {
            u64::MAX
        },
    }
}

/// Whether an advance is one that a probe may go on from, and the frames it counts as.
pub open spec fn advance_verdict(advance: JsonView, frame: u64) -> Result<u64, LinkErrorView> {
    let status = advance_status(advance);
    let completed = advanced_frames(advance, frame);
    if status != "completed"@ && status != "interrupted"@ {
        Err(
            LinkErrorView::Protocol(
                "probe frame advance returned unknown terminal status: "@ + status,
            ),
        )
    } else if completed > frame || (status == "completed"@ && completed != frame) {
        Err(
            LinkErrorView::Protocol(
                (count_message("probe frame advance reported "@, completed, frame)
                    + " frames with status "@) + status,
            ),
        )
    } else {
        Ok(completed)
    }
}

fn frames_reported(advance: &Json) -> (r: Option<u64>)
    ensures
        r == reported_frames(advance@),
{
    if let Some(n) = advance.get_u64("completed_frames") {
        return Some(n);
    }
    if let Some(n) = advance.get_u64("completed") {
        return Some(n);
    }
    if let Some(n) = advance.get_u64("advanced") {
        return Some(n);
    }
    if let Some(n) = advance.get_u64("count") {
        return Some(n);
    }
    advance.get_u64("frames_elapsed")
}

fn status_of_advance(advance: &Json) -> (r: &str)
    ensures
        r@ == advance_status(advance@),
{
    match advance.get_str("status") {
        Some(s) => s,
        None => "completed",
    }
}

fn judge_advance(advance: &Json, frame: u64) -> (r: Result<u64, LinkError>)
    ensures
        match (r, advance_verdict(advance@, frame)) {
            (Ok(n), Ok(m)) => n == m,
            (Err(e), Err(f)) => e@ == f,
            _ => false,
        },
{
    let status = status_of_advance(advance);
    let whole = text::same(status, "completed");
    if !whole && !text::same(status, "interrupted") {
        return Err(
            LinkError::Protocol(
                text::join("probe frame advance returned unknown terminal status: ", status),
            ),
        );
    }
    let completed: u64 = match frames_reported(advance) {
        Some(n) => n,
        None => if whole {
            frame
        } else {
            u64::MAX
        },
    };
    if completed > frame || (whole && completed != frame) {
        let m = count_text("probe frame advance reported ", completed, frame);
        let m = text::join(m.as_str(), " frames with status ");
        return Err(LinkError::Protocol(text::join(m.as_str(), status)));
    }
    Ok(completed)
}

/// A report with a field taken over from an advance, where that has it.
pub open spec fn carried(report: JsonView, advance: JsonView, key: Seq<char>) -> JsonView {
    match advance.field(key) {
        Some(v) => report.put(key, v),
        None => report,
    }
}

fn carry(report: Json, advance: &Json, key: &str) -> (r: Json)
    ensures
        r@ == carried(report@, advance@, key@),
{
    match advance.get(key) {
        Some(v) => report.put(key, v.clone()),
        None => report,
    }
}

/// The report of a composed probe.
pub open spec fn probe_report(advance: JsonView, frame: u64, completed: u64, hex: Seq<char>) -> JsonView {
    let report = JsonView::object().with("status"@, JsonView::Str(advance_status(advance))).with(
        "requested_frames"@,
        JsonView::Unsigned(frame),
    ).with("completed_frames"@, JsonView::Unsigned(completed)).with(
        "state"@,
        JsonView::Str("frozen"@),
    ).with("hex"@, JsonView::Str(hex)).with(
        "composition"@,
        JsonView::Str("load_state_step_read_memory"@),
    );
    let report = carried(report, advance, "reason"@);
    let report = carried(report, advance, "breakpoint_id"@);
    let report = carried(report, advance, "event"@);
    let report = carried(report, advance, "pc"@);
    let report = carried(report, advance, "frame_before"@);
    carried(report, advance, "frame"@)
}

fn describe_probe(advance: &Json, frame: u64, completed: u64, hex: &str) -> (r: Json)
    ensures
        r@ == probe_report(advance@, frame, completed, hex@),
{
    let report = Json::object().with("status", Json::text(status_of_advance(advance))).with(
        "requested_frames",
        Json::Unsigned(frame),
    ).with("completed_frames", Json::Unsigned(completed)).with("state", Json::text("frozen")).with(
        "hex",
        Json::text(hex),
    ).with("composition", Json::text("load_state_step_read_memory"));
    let report = carry(report, advance, "reason");
    let report = carry(report, advance, "breakpoint_id");
    let report = carry(report, advance, "event");
    let report = carry(report, advance, "pc");
    let report = carry(report, advance, "frame_before");
    carry(report, advance, "frame")
}

/// Reading the memory after an advance.
pub open spec fn reading_run(
    h: Seq<LinkStep>,
    n: int,
    advance: JsonView,
    frame: u64,
    span: JsonView,
    length: u64,
) -> Option<(int, Result<JsonView, LinkErrorView>)> {
    match advance_verdict(advance, frame) {
        Err(e) => Some((n, Err(e))),
        Ok(completed) => if !link::is_call(h, n, "read_memory"@, span) {
            None
        } else {
            Some(
                (
                    n + 1,
                    match link::reply_at(h, n) {
                        Err(e) => Err(e),
                        Ok(memory) => match exact_hex(memory, length, "probe read_memory"@) {
                            Err(e) => Err(e),
                            Ok(hex) => Ok(probe_report(advance, frame, completed, hex)),
                        },
                    },
                ),
            )
        },
    }
}

/// A probe composed of single calls: the machine is brought to a frozen boundary, the range
/// checked, the state restored and advanced, and the memory read.
pub open spec fn composed_run(
    h: Seq<LinkStep>,
    n: int,
    state: Seq<char>,
    frame: u64,
    memory_type: Seq<char>,
    address: u64,
    length: u64,
) -> Option<(int, Result<JsonView, LinkErrorView>)> {
    match entry_run(h, n) {
        None => None,
        Some((m, Err(e))) => Some((m, Err(e))),
        Some((m, Ok(was_running))) => match preflight_run(
            h,
            m,
            was_running,
            memory_type,
            address,
            length,
        ) {
            None => None,
            Some((k, Err(e))) => Some((k, Err(e))),
            Some((k, Ok(()))) => match replay_run(h, k, state, frame) {
                None => None,
                Some((j, Err(e))) => Some((j, Err(e))),
                Some((j, Ok(advance))) => reading_run(
                    h,
                    j,
                    advance,
                    frame,
                    tools::span_params(memory_type, address, length),
                    length,
                ),
            },
        },
    }
}

proof fn goes_on_through(a: Seq<LinkStep>, b: Seq<LinkStep>)
    requires
        link::goes_on(a, b),
    ensures
        forall|h: Seq<LinkStep>| link::goes_on(b, h) ==> #[trigger] link::goes_on(a, h),
{
    assert forall|h: Seq<LinkStep>| link::goes_on(b, h) implies #[trigger] link::goes_on(a, h) by {
        assert forall|i: int| 0 <= i < a.len() implies #[trigger] h[i] == a[i] by {
            assert(h[i] == b[i]);
        }
    }
}

fn composed_probe<L: EmulatorLink>(
    link: &mut L,
    state: &str,
    frame: u64,
    memory_type: &str,
    address: u64,
    length: u64,
) -> (r: Result<ToolOutput, LinkError>)
    ensures
        link::goes_on(old(link).history(), final(link).history()),
        composed_run(
            final(link).history(),
            old(link).history().len() as int,
            state@,
            frame,
            memory_type@,
            address,
            length,
        ) matches Some((m, expected)) && m == final(link).history().len() && tools::yields(
            r,
            expected,
        ),
{
    let ghost h0 = link.history();
    let ghost n = h0.len() as int;
    let entered = enter(link);
    let ghost h1 = link.history();
    proof {
        assert(link::goes_on(h1, h1));
        assert(entry_run(h1, n) == Some((h1.len() as int, entered_view(entered))));
    }
    let was_running = entered?;
    let checked = preflight(link, was_running, memory_type, address, length);
    let ghost h2 = link.history();
    proof {
        goes_on_through(h1, h2);
        goes_on_through(h0, h1);
        assert(link::goes_on(h2, h2));
        assert(entry_run(h2, n) == Some((h1.len() as int, entered_view(entered))));
        assert(preflight_run(
            h2,
            h1.len() as int,
            was_running,
            memory_type@,
            address,
            length,
        ) == Some((h2.len() as int, link::done_view(checked))));
    }
    checked?;
    let replayed = replay(link, state, frame);
    let ghost h3 = link.history();
    proof {
        goes_on_through(h2, h3);
        assert(link::goes_on(h3, h3));
        assert(link::goes_on(h1, h3));
        assert(entry_run(h3, n) == Some((h1.len() as int, entered_view(entered))));
        assert(preflight_run(
            h3,
            h1.len() as int,
            was_running,
            memory_type@,
            address,
            length,
        ) == Some((h2.len() as int, link::done_view(checked))));
        assert(replay_run(h3, h2.len() as int, state@, frame) == Some(
            (h3.len() as int, link::reply_view(replayed)),
        ));
    }
    let advance = replayed?;
    let completed: u64 = judge_advance(&advance, frame)?;
    let reply = link.call("read_memory", tools::span_request(memory_type, address, length));
    let ghost h4 = link.history();
    proof {
        assert(link::goes_on(h3, h4));
        goes_on_through(h3, h4);
        assert(link::goes_on(h4, h4));
        assert(link::goes_on(h2, h4));
        assert(link::goes_on(h1, h4));
        assert(entry_run(h4, n) == Some((h1.len() as int, entered_view(entered))));
        assert(preflight_run(
            h4,
            h1.len() as int,
            was_running,
            memory_type@,
            address,
            length,
        ) == Some((h2.len() as int, link::done_view(checked))));
        assert(replay_run(h4, h2.len() as int, state@, frame) == Some(
            (h3.len() as int, link::reply_view(replayed)),
        ));
    }
    let memory = reply?;
    let hex = exact_memory_hex(&memory, length, "probe read_memory")?;
    Ok(ToolOutput::Json(describe_probe(&advance, frame, completed, hex.as_str())))
}

/// The error of a link that can make no probe.
pub open spec fn unavailable() -> LinkErrorView {
    LinkErrorView::Emulator {
        kind: "unsupported"@,
        message: "probe is unavailable: the adapter has neither a native probe nor every operation required for Control composition"@,
    }
}

/// The run of a probe, by what the adapter offers.
pub open spec fn probe_run(
    h: Seq<LinkStep>,
    n: int,
    offers: OffersView,
    state: Seq<char>,
    frame: u64,
    memory_type: Seq<char>,
    address: u64,
    length: u64,
) -> Option<(int, Result<JsonView, LinkErrorView>)> {
    if offers.methods.contains("probe"@) {
        native_run(
            h,
            n,
            tools::probe_params(state, frame, memory_type, address, length),
            frame,
            length,
        )
    } else if !composes(offers.methods) {
        Some((n, Err(unavailable())))
    } else {
        composed_run(h, n, state, frame, memory_type, address, length)
    }
}

/// Restores a saved state, advances it by exact frames and reads memory, as one operation.
pub fn probe<L: EmulatorLink>(
    link: &mut L,
    state: &str,
    frame: u64,
    memory_type: &str,
    address: u64,
    length: u64,
) -> (r: Result<ToolOutput, LinkError>)
    ensures
        match (
            tools::advance_check("probe frame"@, 0, frame),
            span_check(old(link).offers(), memory_type@, address, length),
        ) {
            (Err(e), _) => final(link).history() == old(link).history() && tools::yields(r, Err(e)),
            (_, Err(e)) => final(link).history() == old(link).history() && tools::yields(r, Err(e)),
            (Ok(()), Ok(())) => {
                &&& link::goes_on(old(link).history(), final(link).history())
                &&& probe_run(
                    final(link).history(),
                    old(link).history().len() as int,
                    old(link).offers(),
                    state@,
                    frame,
                    memory_type@,
                    address,
                    length,
                ) matches Some((m, expected)) && m == final(link).history().len() && tools::yields(
                    r,
                    expected,
                )
            },
        },
{
    tools::validate_sync_advance("probe frame", frame)?;
    validate_probe_span(link, memory_type, address, length)?;
    if link.capabilities().has_method("probe") {
        return native_probe(
            link,
            tools::probe_request(state, frame, memory_type, address, length),
            frame,
            length,
        );
    }
    if !probe_available(link) {
        return Err(
            LinkError::emulator(
                "unsupported",
                "probe is unavailable: the adapter has neither a native probe nor every operation required for Control composition",
            ),
        );
    }
    composed_probe(link, state, frame, memory_type, address, length)
}

/// Whether a report tells of a whole read: as many bytes as asked for, after no more frames than
/// asked for, and after all of them where the advance completed.
pub open spec fn tells_whole_read(
    report: JsonView,
    advance: JsonView,
    frame: u64,
    completed: u64,
    hex: Seq<char>,
    length: u64,
) -> bool {
    &&& report == probe_report(advance, frame, completed, hex)
    &&& completed <= frame
    &&& advance_status(advance) == "completed"@ ==> completed == frame
    &&& encoding::hex_bytes(hex) matches Some(bytes) && bytes.len() == length
}

/// A composed probe that succeeds tells of a whole read.
pub proof fn composed_probes_are_whole(
    h: Seq<LinkStep>,
    n: int,
    advance: JsonView,
    frame: u64,
    span: JsonView,
    length: u64,
)
    ensures
        reading_run(h, n, advance, frame, span, length) matches Some((_, Ok(report)))
            ==> exists|completed: u64, hex: Seq<char>| #[trigger]
            tells_whole_read(report, advance, frame, completed, hex, length),
{
    if let Some((_, Ok(report))) = reading_run(h, n, advance, frame, span, length) {
        let completed = advance_verdict(advance, frame)->Ok_0;
        let hex = exact_hex(link::reply_at(h, n)->Ok_0, length, "probe read_memory"@)->Ok_0;
        assert(tells_whole_read(report, advance, frame, completed, hex, length));
    }
}

/// A native probe that is accepted as completed echoes the frames that were asked for, reports
/// them all, and holds as many bytes as were asked for.
pub proof fn native_probes_are_whole(response: JsonView, frame: u64, length: u64)
    requires
        terminal_check(response, frame, length) is Ok,
        response.text_field("status"@) == Some("completed"@),
    ensures
        response.unsigned_field("requested_frames"@) == Some(frame),
        response.unsigned_field("completed_frames"@) == Some(frame),
        response.text_field("hex"@) matches Some(hex) && (encoding::hex_bytes(hex) matches Some(
            bytes,
        ) && bytes.len() == length),
{
}

} // verus!
