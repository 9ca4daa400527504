//! The dispatcher's state machine: command chaining, selection and the pending
//! reply that GET RESPONSE serves, as a model and as code proved against it.
use vstd::prelude::*;
use crate::apdu::{parse, parse_spec, Apdu, Command};
use crate::app::{status_word, App, Interface};
use crate::registry::{find_app, find_spec, lemma_find_from_in_range};
use crate::response::{
    rest_spec, status_bytes, sw_bytes, window, window_size, window_size_of, window_spec,
    RESPONSE_CAPACITY, SW_CHECKING_ERROR, SW_NOT_FOUND, SW_SUCCESS, WINDOW,
};

verus! {

/// Largest command, chained segments joined, that the dispatcher accepts.
pub const COMMAND_CAPACITY: usize = 7609;

/// A command chain being reassembled: its interface and the data so far.
pub struct ChainModel {
    pub interface: Interface,
    pub data: Seq<u8>,
}

/// A reply being served window by window: what is left and its final status.
pub struct PendingModel {
    pub interface: Interface,
    pub remaining: Seq<u8>,
    pub status: u16,
}

/// The dispatcher's state: the selected application, a chain under way, a
/// reply waiting for GET RESPONSE.
pub struct State {
    pub selected: Option<usize>,
    pub chain: Option<ChainModel>,
    pub pending: Option<PendingModel>,
}

/// What a command asks of the dispatcher, as a model.
pub enum TaskModel {
    Reply(Seq<u8>),
    Select { index: usize, command: Apdu },
    Call { index: usize, command: Apdu },
}

/// A step as a model: the application to deselect first, then the task.
pub struct StepModel {
    pub deselect: Option<usize>,
    pub task: TaskModel,
}

/// GET RESPONSE: class with a clear low nibble, INS `C0`, P1 = P2 = 0.
pub open spec fn is_get_response(c: Apdu) -> bool {
    c.class % 16 == 0 && c.instruction == 0xC0 && c.p1 == 0 && c.p2 == 0
}

/// SELECT by AID: class with a clear low nibble, INS `A4`, P1 = 4, P2 = 0.
pub open spec fn is_select(c: Apdu) -> bool {
    c.class % 16 == 0 && c.instruction == 0xA4 && c.p1 == 4 && c.p2 == 0
}

/// Class bit `10`: more segments of this command follow.
pub open spec fn is_chained(c: Apdu) -> bool {
    (c.class / 16) % 2 == 1
}

/// The AIDs as byte sequences.
pub open spec fn aids_view(aids: Seq<Vec<u8>>) -> Seq<Seq<u8>> {
    aids.map_values(|a: Vec<u8>| a@)
}

/// A step that only answers with a status word.
pub open spec fn status_step(sw: u16) -> StepModel {
    StepModel { deselect: None, task: TaskModel::Reply(sw_bytes(sw)) }
}

/// The selected application, if it is one of the `n` present.
pub open spec fn current(s: State, n: nat) -> Option<usize> {
    match s.selected {
        Some(i) => if (i as nat) < n {
            Some(i)
        } else {
            None
        },
        None => None,
    }
}

/// The data of the chain under way, empty if there is none.
pub open spec fn chain_data(s: State) -> Seq<u8> {
    match s.chain {
        Some(ch) => ch.data,
        None => Seq::empty(),
    }
}

/// The pending reply after a window of `size` has been served from it.
pub open spec fn served(p: PendingModel, size: nat) -> Option<PendingModel> {
    if p.remaining.len() <= size {
        None
    } else {
        Some(
            PendingModel {
                interface: p.interface,
                remaining: rest_spec(p.remaining, size),
                status: p.status,
            },
        )
    }
}

/// The command that ends a chain: its own header, the chain's data before its own.
pub open spec fn joined_command(s: State, c: Apdu) -> Apdu {
    Apdu {
        class: c.class,
        instruction: c.instruction,
        p1: c.p1,
        p2: c.p2,
        data: chain_data(s) + c.data,
        le: c.le,
        extended: c.extended,
    }
}

/// One step of the dispatcher on a raw command from `interface`, with the
/// applications' AIDs in order: the next state and what is to be done.
pub open spec fn step_spec(s: State, interface: Interface, raw: Seq<u8>, aids: Seq<Seq<u8>>) -> (
    State,
    StepModel,
) {
    let cleared = State { selected: s.selected, chain: None, pending: None };
    let idle = State { selected: None, chain: None, pending: None };
    let error = status_step(SW_CHECKING_ERROR);
    if s.chain is Some && s.chain->Some_0.interface != interface {
        (cleared, error)
    } else {
        match parse_spec(raw) {
            None => (cleared, error),
            Some(c) => if is_get_response(c) {
                match s.pending {
                    Some(p) => if p.interface == interface {
                        (
                            State {
                                selected: s.selected,
                                chain: None,
                                pending: served(p, window_size(c.le)),
                            },
                            StepModel {
                                deselect: None,
                                task: TaskModel::Reply(
                                    window_spec(p.remaining, p.status, window_size(c.le)),
                                ),
                            },
                        )
                    } else {
                        (cleared, error)
                    },
                    None => (cleared, error),
                }
            } else if is_chained(c) {
                let joined = chain_data(s) + c.data;
                if joined.len() > COMMAND_CAPACITY {
                    (cleared, error)
                } else {
                    (
                        State {
                            selected: s.selected,
                            chain: Some(ChainModel { interface, data: joined }),
                            pending: None,
                        },
                        status_step(SW_SUCCESS),
                    )
                }
            } else {
                let command = joined_command(s, c);
                if command.data.len() > COMMAND_CAPACITY {
                    (cleared, error)
                } else if is_select(command) {
                    let task = match find_spec(aids, command.data) {
                        Some(i) => TaskModel::Select { index: i, command },
                        None => TaskModel::Reply(sw_bytes(SW_NOT_FOUND)),
                    };
                    (idle, StepModel { deselect: current(s, aids.len()), task })
                } else {
                    match current(s, aids.len()) {
                        Some(i) => (
                            cleared,
                            StepModel { deselect: None, task: TaskModel::Call { index: i, command } },
                        ),
                        None => (idle, status_step(SW_NOT_FOUND)),
                    }
                }
            },
        }
    }
}

/// The status that closes an application's reply: `90 00`, or its error.
pub open spec fn final_status(error: Option<u16>) -> u16 {
    match error {
        Some(e) => e,
        None => SW_SUCCESS,
    }
}

/// The state and the response once an application has answered with `data`
/// and `error`; `selecting` names the application that a SELECT went to,
/// which holds the selection from then on if it accepted.
pub open spec fn conclude_spec(
    s: State,
    interface: Interface,
    data: Seq<u8>,
    error: Option<u16>,
    selecting: Option<usize>,
) -> (State, Seq<u8>) {
    let sw = final_status(error);
    let size = WINDOW as nat;
    let selected = match selecting {
        Some(i) => if error is None {
            Some(i)
        } else {
            None
        },
        None => s.selected,
    };
    if data.len() > RESPONSE_CAPACITY {
        (State { selected, chain: s.chain, pending: None }, sw_bytes(SW_CHECKING_ERROR))
    } else {
        (
            State {
                selected,
                chain: s.chain,
                pending: if data.len() > size {
                    Some(PendingModel { interface, remaining: rest_spec(data, size), status: sw })
                } else {
                    None
                },
            },
            window_spec(data, sw, size),
        )
    }
}

/// The state `next` and the `response` are what concluding may give after
/// some answer of an application.
pub open spec fn answered(
    m: State,
    interface: Interface,
    selecting: Option<usize>,
    next: State,
    response: Seq<u8>,
) -> bool {
    exists|data: Seq<u8>, error: Option<u16>|
        #[trigger] conclude_spec(m, interface, data, error, selecting) == (next, response)
}

/// What `poll` may have done on a raw command, given the AIDs it read: answer
/// as the step says, or hand the command to an application and conclude with
/// whatever that application answered.
pub open spec fn poll_spec(
    s: State,
    interface: Interface,
    raw: Seq<u8>,
    aids: Seq<Seq<u8>>,
    next: State,
    response: Seq<u8>,
) -> bool {
    let (m, step) = step_spec(s, interface, raw, aids);
    match step.task {
        TaskModel::Reply(bytes) => next == m && response == bytes,
        TaskModel::Select { index, command } => answered(m, interface, Some(index), next, response),
        TaskModel::Call { index, command } => answered(m, interface, None, next, response),
    }
}

/// Every window is at least a status word long.
pub proof fn lemma_window_len(rem: Seq<u8>, sw: u16, size: nat)
    ensures
        window_spec(rem, sw, size).len() >= 2,
{
}

/// The indices that a step names are those of present applications.
pub proof fn lemma_step_indices(s: State, interface: Interface, raw: Seq<u8>, aids: Seq<Seq<u8>>)
    requires
        aids.len() <= usize::MAX,
    ensures
        ({
            let step = step_spec(s, interface, raw, aids).1;
            &&& step.deselect matches Some(d) ==> d < aids.len()
            &&& step.task matches TaskModel::Select { index, .. } ==> index < aids.len()
            &&& step.task matches TaskModel::Call { index, .. } ==> index < aids.len()
        }),
{
    if let Some(c) = parse_spec(raw) {
        lemma_find_from_in_range(aids, joined_command(s, c).data, 0);
    }
}

/// A step that answers by itself answers with at least a status word.
pub proof fn lemma_step_reply_len(s: State, interface: Interface, raw: Seq<u8>, aids: Seq<Seq<u8>>)
    ensures
        step_spec(s, interface, raw, aids).1.task matches TaskModel::Reply(b) ==> b.len() >= 2,
{
    if let Some(p) = s.pending {
        if let Some(c) = parse_spec(raw) {
            lemma_window_len(p.remaining, p.status, window_size(c.le));
        }
    }
}

/// The response to an application's answer is at least a status word.
pub proof fn lemma_conclude_len(
    s: State,
    interface: Interface,
    data: Seq<u8>,
    error: Option<u16>,
    selecting: Option<usize>,
)
    ensures
        conclude_spec(s, interface, data, error, selecting).1.len() >= 2,
{
    lemma_window_len(data, final_status(error), WINDOW as nat);
}

/// A command chain under reassembly.
struct Chain {
    interface: Interface,
    data: Vec<u8>,
}

/// A reply of which `data[offset..]` is still to be served.
struct Pending {
    interface: Interface,
    data: Vec<u8>,
    offset: usize,
    status: u16,
}

/// What a command asks of the dispatcher.
pub enum Task {
    /// Answer with these bytes.
    Reply(Vec<u8>),
    /// Hand the SELECT to the application at `index`.
    Select { index: usize, command: Command },
    /// Hand the command to the selected application at `index`.
    Call { index: usize, command: Command },
}

/// One step: the application to deselect first, if any, then the task.
pub struct Step {
    pub deselect: Option<usize>,
    pub task: Task,
}

impl View for Task {
    type V = TaskModel;

    open spec fn view(&self) -> TaskModel {
        match self {
            Task::Reply(r) => TaskModel::Reply(r@),
            Task::Select { index, command } => TaskModel::Select { index: *index, command: command@ },
            Task::Call { index, command } => TaskModel::Call { index: *index, command: command@ },
        }
    }
}

impl View for Step {
    type V = StepModel;

    open spec fn view(&self) -> StepModel {
        StepModel { deselect: self.deselect, task: self.task@ }
    }
}

impl Step {
    fn status(sw: u16) -> (r: Step)
        ensures
            r@ == status_step(sw),
    {
        Step { deselect: None, task: Task::Reply(status_bytes(sw)) }
    }
}

fn is_get_response_exec(c: &Command) -> (r: bool)
    ensures
        r == is_get_response(c@),
{
    c.class % 16 == 0 && c.instruction == 0xC0 && c.p1 == 0 && c.p2 == 0
}

fn is_select_exec(c: &Command) -> (r: bool)
    ensures
        r == is_select(c@),
{
    c.class % 16 == 0 && c.instruction == 0xA4 && c.p1 == 4 && c.p2 == 0
}

fn is_chained_exec(c: &Command) -> (r: bool)
    ensures
        r == is_chained(c@),
{
    (c.class / 16) % 2 == 1
}

/// The dispatcher's state between commands.
pub struct Dispatcher {
    selected: Option<usize>,
    chain: Option<Chain>,
    pending: Option<Pending>,
}

impl View for Dispatcher {
    type V = State;

    closed spec fn view(&self) -> State {
        State {
            selected: self.selected,
            chain: match self.chain {
                Some(ch) => Some(ChainModel { interface: ch.interface, data: ch.data@ }),
                None => None,
            },
            pending: match self.pending {
                Some(p) => Some(
                    PendingModel {
                        interface: p.interface,
                        remaining: p.data@.subrange(p.offset as int, p.data@.len() as int),
                        status: p.status,
                    },
                ),
                None => None,
            },
        }
    }
}

impl Dispatcher {
    /// Buffers stay within their capacities and the pending cursor within its reply.
    pub closed spec fn wf(&self) -> bool {
        &&& match self.chain {
            Some(ch) => ch.data@.len() <= COMMAND_CAPACITY,
            None => true,
        }
        &&& match self.pending {
            Some(p) => p.offset <= p.data@.len() <= RESPONSE_CAPACITY,
            None => true,
        }
    }

    /// A dispatcher with nothing selected, no chain and no pending reply.
    pub fn new() -> (r: Dispatcher)
        ensures
            r.wf(),
            r@ == (State { selected: None, chain: None, pending: None }),
    {
        Dispatcher { selected: None, chain: None, pending: None }
    }

    /// Decides what a raw command from `interface` asks for, given the AIDs
    /// of the applications in order, and moves to the next state.
    pub fn plan(&mut self, interface: Interface, raw: &[u8], aids: &Vec<Vec<u8>>) -> (r: Step)
        requires
            old(self).wf(),
        ensures
            final(self).wf(),
            (final(self)@, r@) == step_spec(old(self)@, interface, raw@, aids_view(aids@)),
    {
        let ghost s = self@;
        let chain = self.chain.take();
        let pending = self.pending.take();
        let mut prior: Vec<u8> = match chain {
            Some(ch) => {
                if ch.interface != interface {
                    return Step::status(SW_CHECKING_ERROR);
                }
                ch.data
            },
            None => Vec::new(),
        };
        assert(prior@ == chain_data(s));
        let mut c = match parse(raw) {
            Some(c) => c,
            None => {
                return Step::status(SW_CHECKING_ERROR);
            },
        };
        if is_get_response_exec(&c) {
            match pending {
                Some(p) => {
                    if p.interface == interface {
                        let size = window_size_of(c.le);
                        let r = window(&p.data, p.offset, p.status, size);
                        if p.data.len() - p.offset > size {
                            let ghost rem = p.data@.subrange(p.offset as int, p.data@.len() as int);
                            assert(p.data@.subrange((p.offset + size) as int, p.data@.len() as int)
                                =~= rest_spec(rem, size as nat));
                            self.pending = Some(
                                Pending {
                                    interface: p.interface,
                                    data: p.data,
                                    offset: p.offset + size,
                                    status: p.status,
                                },
                            );
                        }
                        return Step { deselect: None, task: Task::Reply(r) };
                    } else {
                        return Step::status(SW_CHECKING_ERROR);
                    }
                },
                None => {
                    return Step::status(SW_CHECKING_ERROR);
                },
            }
        }
        if c.data.len() > COMMAND_CAPACITY - prior.len() {
            return Step::status(SW_CHECKING_ERROR);
        }
        prior.append(&mut c.data);
        if is_chained_exec(&c) {
            self.chain = Some(Chain { interface, data: prior });
            return Step::status(SW_SUCCESS);
        }
        let command = Command {
            class: c.class,
            instruction: c.instruction,
            p1: c.p1,
            p2: c.p2,
            data: prior,
            le: c.le,
            extended: c.extended,
        };
        let n = aids.len();
        let cur: Option<usize> = match self.selected {
            Some(i) => if i < n {
                Some(i)
            } else {
                None
            },
            None => None,
        };
        if is_select_exec(&command) {
            self.selected = None;
            match find_app(aids, command.data.as_slice()) {
                Some(i) => Step { deselect: cur, task: Task::Select { index: i, command } },
                None => Step { deselect: cur, task: Task::Reply(status_bytes(SW_NOT_FOUND)) },
            }
        } else {
            match cur {
                Some(i) => Step { deselect: None, task: Task::Call { index: i, command } },
                None => {
                    self.selected = None;
                    Step::status(SW_NOT_FOUND)
                },
            }
        }
    }

    /// Handles one raw command from `interface`: reads the applications'
    /// AIDs, plans the step, deselects and selects or calls applications as
    /// it says, and returns the response to send back.
    pub fn poll<A: App>(&mut self, interface: Interface, raw: &[u8], apps: &mut Vec<A>) -> (r: Vec<u8>)
        requires
            old(self).wf(),
        ensures
            final(self).wf(),
            final(apps)@.len() == old(apps)@.len(),
            r@.len() >= 2,
            exists|aids: Seq<Seq<u8>>|
                aids.len() == old(apps)@.len() && #[trigger] poll_spec(
                    old(self)@,
                    interface,
                    raw@,
                    aids,
                    final(self)@,
                    r@,
                ),
    {
        let ghost s = self@;
        let mut aids: Vec<Vec<u8>> = Vec::new();
        let mut i: usize = 0;
        while i < apps.len()
            invariant
                i <= apps.len(),
                aids.len() == i,
            decreases apps.len() - i,
        {
            aids.push(apps[i].aid());
            i = i + 1;
        }
        let ghost av = aids_view(aids@);
        assert(av.len() == apps@.len());
        let step = self.plan(interface, raw, &aids);
        proof {
            lemma_step_indices(s, interface, raw@, av);
        }
        let ghost st = step@;
        match step.deselect {
            Some(d) => {
                apps[d].deselect();
            },
            None => {},
        }
        match step.task {
            Task::Reply(r) => {
                proof {
                    lemma_step_reply_len(s, interface, raw@, av);
                    assert(poll_spec(s, interface, raw@, av, self@, r@));
                }
                r
            },
            Task::Select { index, command } => {
                assert(st.task == TaskModel::Select { index, command: command@ });
                let mut reply: Vec<u8> = Vec::new();
                let answer = apps[index].select(interface, &command, &mut reply);
                let error = match answer {
                    Ok(()) => None,
                    Err(status) => Some(status_word(status)),
                };
                let ghost m = self@;
                let ghost data = reply@;
                let r = self.conclude(interface, reply, error, Some(index));
                proof {
                    lemma_conclude_len(m, interface, data, error, Some(index));
                    assert(conclude_spec(m, interface, data, error, Some(index)) == (self@, r@));
                    assert(answered(m, interface, Some(index), self@, r@));
                    assert(poll_spec(s, interface, raw@, av, self@, r@));
                }
                r
            },
            Task::Call { index, command } => {
                assert(st.task == TaskModel::Call { index, command: command@ });
                let mut reply: Vec<u8> = Vec::new();
                let answer = apps[index].call(interface, &command, &mut reply);
                let error = match answer {
                    Ok(()) => None,
                    Err(status) => Some(status_word(status)),
                };
                let ghost m = self@;
                let ghost data = reply@;
                let r = self.conclude(interface, reply, error, None);
                proof {
                    lemma_conclude_len(m, interface, data, error, None);
                    assert(conclude_spec(m, interface, data, error, None) == (self@, r@));
                    assert(answered(m, interface, None, self@, r@));
                    assert(poll_spec(s, interface, raw@, av, self@, r@));
                }
                r
            },
        }
    }

    /// Takes an application's answer (`data`, and the status word of its
    /// error, if any) and gives the response: all of it and its status when
    /// it fits one window, else the first window, keeping the rest pending.
    pub fn conclude(
        &mut self,
        interface: Interface,
        data: Vec<u8>,
        error: Option<u16>,
        selecting: Option<usize>,
    ) -> (r: Vec<u8>)
        requires
            old(self).wf(),
        ensures
            final(self).wf(),
            (final(self)@, r@) == conclude_spec(old(self)@, interface, data@, error, selecting),
    {
        let sw = match error {
            Some(e) => e,
            None => SW_SUCCESS,
        };
        match selecting {
            Some(i) => {
                self.selected = if error.is_none() {
                    Some(i)
                } else {
                    None
                };
            },
            None => {},
        }
        if data.len() > RESPONSE_CAPACITY {
            self.pending = None;
            return status_bytes(SW_CHECKING_ERROR);
        }
        assert(data@.subrange(0, data@.len() as int) =~= data@);
        let size = WINDOW;
        let r = window(&data, 0, sw, size);
        if data.len() > size {
            assert(data@.subrange(size as int, data@.len() as int) =~= rest_spec(data@, size as nat));
            self.pending = Some(Pending { interface, data, offset: size, status: sw });
        } else {
            self.pending = None;
        }
        r
    }
}

} // verus!
