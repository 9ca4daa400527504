//! Properties of the dispatcher that hold for every input, proved over the model.
use vstd::prelude::*;
use crate::apdu::parse_spec;
use crate::registry::find_spec;
use crate::app::Interface;
use crate::dispatch::{
    chain_data, conclude_spec, current, is_chained, is_get_response, is_select, joined_command,
    status_step, step_spec, State, StepModel, TaskModel, COMMAND_CAPACITY,
};
use crate::response::{
    more_byte, rest_spec, sw_bytes, window_size, window_spec, RESPONSE_CAPACITY, SW1_MORE_AVAILABLE,
    SW_CHECKING_ERROR, SW_NOT_FOUND, SW_SUCCESS, WINDOW,
};

verus! {

/// The full windows in which `rem` is served, in order, the last closed by `sw`.
pub open spec fn windows_of(rem: Seq<u8>, sw: u16) -> Seq<Seq<u8>>
    decreases rem.len(),
{
    if rem.len() <= WINDOW {
        seq![window_spec(rem, sw, WINDOW as nat)]
    } else {
        seq![window_spec(rem, sw, WINDOW as nat)] + windows_of(rest_spec(rem, WINDOW as nat), sw)
    }
}

/// A response without its status word.
pub open spec fn payload(w: Seq<u8>) -> Seq<u8> {
    w.subrange(0, w.len() - 2)
}

/// The status word that ends a response.
pub open spec fn trailer(w: Seq<u8>) -> Seq<u8> {
    w.subrange(w.len() - 2, w.len() as int)
}

/// The payloads of responses, joined in order.
pub open spec fn joined_payloads(ws: Seq<Seq<u8>>) -> Seq<u8>
    decreases ws.len(),
{
    if ws.len() == 0 {
        Seq::empty()
    } else {
        payload(ws[0]) + joined_payloads(ws.subrange(1, ws.len() as int))
    }
}

/// The responses to `k` commands `raw` sent one after the other from `s`, as
/// long as each is answered by the dispatcher itself.
pub open spec fn get_responses(
    s: State,
    interface: Interface,
    raw: Seq<u8>,
    aids: Seq<Seq<u8>>,
    k: nat,
) -> Seq<Seq<u8>>
    decreases k,
{
    if k == 0 {
        Seq::empty()
    } else {
        let (m, step) = step_spec(s, interface, raw, aids);
        match step.task {
            TaskModel::Reply(b) => seq![b] + get_responses(m, interface, raw, aids, (k - 1) as nat),
            _ => Seq::empty(),
        }
    }
}

/// The state after those `k` commands.
pub open spec fn after_get_responses(
    s: State,
    interface: Interface,
    raw: Seq<u8>,
    aids: Seq<Seq<u8>>,
    k: nat,
) -> State
    decreases k,
{
    if k == 0 {
        s
    } else {
        after_get_responses(step_spec(s, interface, raw, aids).0, interface, raw, aids, (k - 1) as nat)
    }
}

/// Whatever the state and the input bytes, a step that answers by itself
/// answers with at least a status word, and so does every application's answer.
pub proof fn law_response_has_status(
    s: State,
    interface: Interface,
    raw: Seq<u8>,
    aids: Seq<Seq<u8>>,
    data: Seq<u8>,
    error: Option<u16>,
    selecting: Option<usize>,
)
    ensures
        step_spec(s, interface, raw, aids).1.task matches TaskModel::Reply(b) ==> b.len() >= 2,
        conclude_spec(s, interface, data, error, selecting).1.len() >= 2,
{
    crate::dispatch::lemma_step_reply_len(s, interface, raw, aids);
    crate::dispatch::lemma_conclude_len(s, interface, data, error, selecting);
}

/// An application is deselected exactly when it loses the selection: a step
/// deselects at most one application, the one that held the selection, and
/// only when it no longer holds it; an application that loses the selection
/// is deselected.
pub proof fn law_deselect_once_per_transition(
    s: State,
    interface: Interface,
    raw: Seq<u8>,
    aids: Seq<Seq<u8>>,
)
    ensures
        ({
            let (m, step) = step_spec(s, interface, raw, aids);
            &&& step.deselect is Some ==> current(s, aids.len()) == step.deselect && m.selected is None
            &&& (current(s, aids.len()) is Some && m.selected != current(s, aids.len()))
                ==> step.deselect == current(s, aids.len())
        }),
{
}

/// At most one application holds the selection, and only it is called: a
/// step never hands the selection to anyone, keeps it or drops it; a command
/// goes to an application only if that application holds the selection; a
/// SELECT drops the selection until the chosen application accepts it, and a
/// SELECT that matches no application answers `6A 82` with none selected.
pub proof fn law_one_selection(
    s: State,
    interface: Interface,
    raw: Seq<u8>,
    aids: Seq<Seq<u8>>,
    m: State,
    data: Seq<u8>,
    error: Option<u16>,
    index: usize,
)
    ensures
        ({
            let (next, step) = step_spec(s, interface, raw, aids);
            &&& next.selected == s.selected || next.selected is None
            &&& (step.task matches TaskModel::Call { index: i, .. } ==> s.selected == Some(i)
                && next.selected == Some(i))
            &&& (step.task matches TaskModel::Select { .. } ==> next.selected is None)
        }),
        (parse_spec(raw) matches Some(c) && (s.chain is None || s.chain->Some_0.interface
            == interface) && !is_get_response(c) && !is_chained(c) && is_select(
            joined_command(s, c),
        ) && joined_command(s, c).data.len() <= COMMAND_CAPACITY && find_spec(
            aids,
            joined_command(s, c).data,
        ) is None) ==> step_spec(s, interface, raw, aids) == (State {
            selected: None,
            chain: None,
            pending: None,
        }, StepModel {
            deselect: current(s, aids.len()),
            task: TaskModel::Reply(sw_bytes(SW_NOT_FOUND)),
        }),
        conclude_spec(m, interface, data, error, Some(index)).0.selected == (if error is None {
            Some(index)
        } else {
            None
        }),
        conclude_spec(m, interface, data, error, None).0.selected == m.selected,
{
}

/// A chained segment that would take the chain past its capacity is refused
/// with `6F 00`, and the chain is dropped.
pub proof fn law_chain_overflow(s: State, interface: Interface, raw: Seq<u8>, aids: Seq<Seq<u8>>)
    requires
        s.chain matches Some(ch) ==> ch.interface == interface,
        parse_spec(raw) matches Some(c) && is_chained(c) && !is_get_response(c) && chain_data(s).len()
            + c.data.len() > COMMAND_CAPACITY,
    ensures
        step_spec(s, interface, raw, aids) == (State {
            selected: s.selected,
            chain: None,
            pending: None,
        }, status_step(SW_CHECKING_ERROR)),
{
}

/// A successful reply of at most one window is sent whole, followed by
/// `90 00`, and leaves nothing pending.
pub proof fn law_short_reply(
    s: State,
    interface: Interface,
    data: Seq<u8>,
    selecting: Option<usize>,
)
    requires
        data.len() <= WINDOW,
    ensures
        conclude_spec(s, interface, data, None, selecting).1 == data + seq![0x90u8, 0x00u8],
        conclude_spec(s, interface, data, None, selecting).0.pending is None,
{
    assert(sw_bytes(SW_SUCCESS) =~= seq![0x90u8, 0x00u8]);
}

/// The payloads of the windows of `rem` join up to `rem`.
pub proof fn lemma_windows_join(rem: Seq<u8>, sw: u16)
    ensures
        joined_payloads(windows_of(rem, sw)) == rem,
    decreases rem.len(),
{
    let ws = windows_of(rem, sw);
    let w0 = window_spec(rem, sw, WINDOW as nat);
    if rem.len() <= WINDOW {
        assert(payload(w0) =~= rem);
        assert(ws.subrange(1, ws.len() as int) =~= Seq::<Seq<u8>>::empty());
        assert(joined_payloads(ws) =~= payload(w0) + joined_payloads(Seq::<Seq<u8>>::empty()));
        assert(joined_payloads(ws) =~= rem);
    } else {
        let tail = windows_of(rest_spec(rem, WINDOW as nat), sw);
        lemma_windows_join(rest_spec(rem, WINDOW as nat), sw);
        assert(ws.subrange(1, ws.len() as int) =~= tail);
        assert(payload(w0) =~= rem.subrange(0, WINDOW as int));
        assert(joined_payloads(ws) =~= rem);
    }
}

/// The last window of `rem` ends with `sw`; each earlier one ends with
/// `61 xx`, where `xx` counts the bytes still to come (`00` from 256 on).
pub proof fn lemma_windows_trailers(rem: Seq<u8>, sw: u16)
    ensures
        windows_of(rem, sw).len() >= 1,
        trailer(windows_of(rem, sw).last()) == sw_bytes(sw),
        forall|i: int|
            0 <= i < windows_of(rem, sw).len() - 1 ==> trailer(#[trigger] windows_of(rem, sw)[i])
                == seq![SW1_MORE_AVAILABLE, more_byte((rem.len() - WINDOW * (i + 1)) as nat)],
    decreases rem.len(),
{
    let ws = windows_of(rem, sw);
    let w0 = window_spec(rem, sw, WINDOW as nat);
    if rem.len() <= WINDOW {
        assert(trailer(w0) =~= sw_bytes(sw));
    } else {
        let rest = rest_spec(rem, WINDOW as nat);
        let tail = windows_of(rest, sw);
        lemma_windows_trailers(rest, sw);
        assert(ws.last() == tail.last());
        assert(trailer(w0) =~= seq![SW1_MORE_AVAILABLE, more_byte((rem.len() - WINDOW) as nat)]);
        assert forall|i: int| 0 <= i < ws.len() - 1 implies trailer(#[trigger] ws[i]) == seq![
            SW1_MORE_AVAILABLE,
            more_byte((rem.len() - WINDOW * (i + 1)) as nat),
        ] by {
            if i > 0 {
                assert(ws[i] == tail[i - 1]);
                assert(rest.len() - WINDOW * i == rem.len() - WINDOW * (i + 1));
            }
        }
    }
}

/// While a reply is pending on `interface`, GET RESPONSE after GET RESPONSE
/// asking for full windows (no Le, or an Le of 256 or more) serves exactly
/// its windows, and then nothing is pending.
pub proof fn lemma_get_responses_serve(
    s: State,
    interface: Interface,
    raw: Seq<u8>,
    aids: Seq<Seq<u8>>,
)
    requires
        s.chain is None,
        s.pending matches Some(p) && p.interface == interface,
        parse_spec(raw) matches Some(c) && is_get_response(c) && window_size(c.le) == WINDOW,
    ensures
        ({
            let p = s.pending->Some_0;
            let k = windows_of(p.remaining, p.status).len();
            &&& get_responses(s, interface, raw, aids, k) == windows_of(p.remaining, p.status)
            &&& after_get_responses(s, interface, raw, aids, k).pending is None
        }),
    decreases s.pending->Some_0.remaining.len(),
{
    let p = s.pending->Some_0;
    let (m, step) = step_spec(s, interface, raw, aids);
    let w0 = window_spec(p.remaining, p.status, WINDOW as nat);
    assert(step.task == TaskModel::Reply(w0));
    if p.remaining.len() <= WINDOW {
        assert(get_responses(m, interface, raw, aids, 0) =~= Seq::<Seq<u8>>::empty());
        assert(get_responses(s, interface, raw, aids, 1) =~= seq![w0]);
        assert(after_get_responses(m, interface, raw, aids, 0) == m);
    } else {
        let rest = rest_spec(p.remaining, WINDOW as nat);
        lemma_get_responses_serve(m, interface, raw, aids);
        let k1 = windows_of(rest, p.status).len();
        assert(windows_of(p.remaining, p.status).len() == k1 + 1);
        assert(((k1 + 1) - 1) as nat == k1);
        assert(get_responses(s, interface, raw, aids, k1 + 1) =~= seq![w0] + get_responses(
            m,
            interface,
            raw,
            aids,
            k1,
        ));
    }
}

/// A successful reply longer than one window is served whole: its first
/// window, then one window per GET RESPONSE that asks for full windows; their payloads join up to the
/// reply, the last ends with `90 00`, each earlier one with `61 xx` where `xx`
/// counts the bytes still to come (`00` from 256 on); then nothing is pending.
pub proof fn law_long_reply_served_whole(
    s: State,
    interface: Interface,
    data: Seq<u8>,
    selecting: Option<usize>,
    raw: Seq<u8>,
    aids: Seq<Seq<u8>>,
)
    requires
        WINDOW < data.len() <= RESPONSE_CAPACITY,
        s.chain is None,
        parse_spec(raw) matches Some(c) && is_get_response(c) && window_size(c.le) == WINDOW,
    ensures
        ({
            let (m, first) = conclude_spec(s, interface, data, None, selecting);
            let k = (windows_of(data, SW_SUCCESS).len() - 1) as nat;
            let ws = seq![first] + get_responses(m, interface, raw, aids, k);
            &&& ws == windows_of(data, SW_SUCCESS)
            &&& joined_payloads(ws) == data
            &&& trailer(ws.last()) == seq![0x90u8, 0x00u8]
            &&& forall|i: int|
                0 <= i < ws.len() - 1 ==> trailer(#[trigger] ws[i]) == seq![
                    SW1_MORE_AVAILABLE,
                    more_byte((data.len() - WINDOW * (i + 1)) as nat),
                ]
            &&& after_get_responses(m, interface, raw, aids, k).pending is None
        }),
{
    let (m, first) = conclude_spec(s, interface, data, None, selecting);
    let rest = rest_spec(data, WINDOW as nat);
    lemma_get_responses_serve(m, interface, raw, aids);
    assert(windows_of(data, SW_SUCCESS) == seq![first] + windows_of(rest, SW_SUCCESS));
    lemma_windows_join(data, SW_SUCCESS);
    lemma_windows_trailers(data, SW_SUCCESS);
    assert(sw_bytes(SW_SUCCESS) =~= seq![0x90u8, 0x00u8]);
}

/// A command other than GET RESPONSE drops any pending reply; a GET RESPONSE
/// with nothing pending is answered `6F 00`.
pub proof fn law_interruption_discards_pending(
    s: State,
    interface: Interface,
    raw: Seq<u8>,
    aids: Seq<Seq<u8>>,
    next_raw: Seq<u8>,
)
    requires
        !(parse_spec(raw) matches Some(c) && is_get_response(c)),
        parse_spec(next_raw) matches Some(c) && is_get_response(c),
    ensures
        step_spec(s, interface, raw, aids).0.pending is None,
        step_spec(step_spec(s, interface, raw, aids).0, interface, next_raw, aids).1 == status_step(
            SW_CHECKING_ERROR,
        ),
{
}

} // verus!
