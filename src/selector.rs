use vstd::prelude::*;
use crate::dpad::{dpad_vector, Dpad};
use crate::geometry::{div_trunc, Vec2};
use crate::player::{total, Player};

verus! {

/// How long button A must be held, in milliseconds, before the selector
/// opens on its own.
pub const DECIDING_TIME: i64 = 500;

/// The state of the radial item selector.
#[derive(Clone, Copy, Debug, PartialEq, Eq, Structural)]
pub enum SelectorState {
    Idle,
    /// Button A is held; the selector opens when the remaining time, in
    /// milliseconds, runs out.
    Deciding(i64),
    ItemChosen,
    AboutToCancel,
}

/// What a tick of the selector asks the game to do.
#[derive(Clone, Copy, Debug, PartialEq, Eq, Structural)]
pub enum SelectorEvent {
    Nothing,
    /// Use the item in the active hand.
    TriggerAction,
    /// Make the given hand the active one.
    SwapItem(Dpad),
}

/// One tick of controller input: the level of button A, the pressed
/// direction of the pad, and the milliseconds elapsed.
#[derive(Clone, Copy, Debug, PartialEq, Eq, Structural)]
pub struct Input {
    pub a: bool,
    pub dpad: Option<Dpad>,
    pub delta: u32,
}

/// The transition table of the selector: the next state and the event.
pub open spec fn next_spec(state: SelectorState, input: Input) -> (SelectorState, SelectorEvent) {
    match state {
        SelectorState::Idle => if input.a {
            (SelectorState::Deciding(DECIDING_TIME), SelectorEvent::Nothing)
        } else {
            (SelectorState::Idle, SelectorEvent::Nothing)
        },
        SelectorState::Deciding(timeout) => if !input.a {
            (SelectorState::Idle, SelectorEvent::TriggerAction)
        } else if input.dpad is Some {
            (SelectorState::ItemChosen, SelectorEvent::Nothing)
        } else if timeout <= 0 {
            (SelectorState::AboutToCancel, SelectorEvent::Nothing)
        } else {
            (SelectorState::Deciding((timeout - input.delta) as i64), SelectorEvent::Nothing)
        },
        SelectorState::ItemChosen => match input.dpad {
            Some(d) => if input.a {
                (SelectorState::ItemChosen, SelectorEvent::Nothing)
            } else {
                (SelectorState::Idle, SelectorEvent::SwapItem(d))
            },
            None => (SelectorState::AboutToCancel, SelectorEvent::Nothing),
        },
        SelectorState::AboutToCancel => match input.dpad {
            Some(_) => if input.a {
                (SelectorState::ItemChosen, SelectorEvent::Nothing)
            } else {
                (SelectorState::AboutToCancel, SelectorEvent::Nothing)
            },
            None => if input.a {
                (SelectorState::AboutToCancel, SelectorEvent::Nothing)
            } else {
                (SelectorState::Idle, SelectorEvent::Nothing)
            },
        },
    }
}

/// The states that the selector passes through on `inputs`, one per input.
pub open spec fn trace_spec(state: SelectorState, inputs: Seq<Input>) -> Seq<SelectorState>
    decreases inputs.len(),
{
    if inputs.len() == 0 {
        Seq::empty()
    } else {
        let s = next_spec(state, inputs[0]).0;
        seq![s].add(trace_spec(s, inputs.drop_first()))
    }
}

/// The state that the selector is in after `inputs`.
pub open spec fn run_spec(state: SelectorState, inputs: Seq<Input>) -> SelectorState
    decreases inputs.len(),
{
    if inputs.len() == 0 {
        state
    } else {
        run_spec(next_spec(state, inputs[0]).0, inputs.drop_first())
    }
}

/// The transition table of the selector.
pub fn next(state: SelectorState, input: Input) -> (r: (SelectorState, SelectorEvent))
    ensures
        r == next_spec(state, input),
{
    match state {
        SelectorState::Idle => {
            if input.a {
                (SelectorState::Deciding(DECIDING_TIME), SelectorEvent::Nothing)
            } else {
                (SelectorState::Idle, SelectorEvent::Nothing)
            }
        },
        SelectorState::Deciding(timeout) => {
            if !input.a {
                (SelectorState::Idle, SelectorEvent::TriggerAction)
            } else if input.dpad.is_some() {
                (SelectorState::ItemChosen, SelectorEvent::Nothing)
            } else if timeout <= 0 {
                (SelectorState::AboutToCancel, SelectorEvent::Nothing)
            } else {
                (SelectorState::Deciding(timeout - input.delta as i64), SelectorEvent::Nothing)
            }
        },
        SelectorState::ItemChosen => {
            match input.dpad {
                Some(d) => {
                    if input.a {
                        (SelectorState::ItemChosen, SelectorEvent::Nothing)
                    } else {
                        (SelectorState::Idle, SelectorEvent::SwapItem(d))
                    }
                },
                None => (SelectorState::AboutToCancel, SelectorEvent::Nothing),
            }
        },
        SelectorState::AboutToCancel => {
            match input.dpad {
                Some(_) => {
                    if input.a {
                        (SelectorState::ItemChosen, SelectorEvent::Nothing)
                    } else {
                        (SelectorState::AboutToCancel, SelectorEvent::Nothing)
                    }
                },
                None => {
                    if input.a {
                        (SelectorState::AboutToCancel, SelectorEvent::Nothing)
                    } else {
                        (SelectorState::Idle, SelectorEvent::Nothing)
                    }
                },
            }
        },
    }
}

/// The states that the selector passes through on `inputs`, from `state`.
pub fn trace(state: SelectorState, inputs: &Vec<Input>) -> (r: Vec<SelectorState>)
    ensures
        r@ == trace_spec(state, inputs@),
{
    let mut out: Vec<SelectorState> = Vec::new();
    let mut s = state;
    let mut i: usize = 0;
    proof {
        assert(inputs@.skip(0) == inputs@);
        assert(out@ + trace_spec(s, inputs@) == trace_spec(s, inputs@));
    }
    while i < inputs.len()
        invariant
            0 <= i <= inputs@.len(),
            out@ + trace_spec(s, inputs@.skip(i as int)) == trace_spec(state, inputs@),
        decreases inputs@.len() - i,
    {
        proof {
            assert(inputs@.skip(i as int).drop_first() == inputs@.skip(i + 1));
        }
        s = next(s, inputs[i]).0;
        out.push(s);
        i = i + 1;
        proof {
            let ghost rest = inputs@.skip(i - 1);
            assert(rest[0] == inputs@[i - 1]);
            assert(out@ + trace_spec(s, inputs@.skip(i as int)) == trace_spec(state, inputs@));
        }
    }
    proof {
        assert(out@ + trace_spec(s, inputs@.skip(i as int)) == out@);
    }
    out
}

/// Two traces from the same state on the same inputs are the same: nothing
/// but the state and the inputs decides where the selector goes.
pub proof fn lemma_trace_deterministic(state: SelectorState, a: Seq<Input>, b: Seq<Input>)
    requires
        a == b,
    ensures
        trace_spec(state, a) == trace_spec(state, b),
        run_spec(state, a) == run_spec(state, b),
{
}

/// Ticks with button A held and the pad released, lasting `deltas`.
pub open spec fn holding_a(deltas: Seq<u32>) -> Seq<Input> {
    deltas.map_values(|d: u32| Input { a: true, dpad: None, delta: d })
}

proof fn lemma_holding_a_step(deltas: Seq<u32>)
    requires
        deltas.len() > 0,
    ensures
        holding_a(deltas).len() == deltas.len(),
        holding_a(deltas)[0] == (Input { a: true, dpad: None, delta: deltas[0] }),
        holding_a(deltas).drop_first() == holding_a(deltas.drop_first()),
{
    assert(holding_a(deltas).drop_first() =~= holding_a(deltas.drop_first()));
}

proof fn lemma_cancel_stays(deltas: Seq<u32>)
    ensures
        run_spec(SelectorState::AboutToCancel, holding_a(deltas)) == SelectorState::AboutToCancel,
    decreases deltas.len(),
{
    if deltas.len() > 0 {
        lemma_holding_a_step(deltas);
        lemma_cancel_stays(deltas.drop_first());
    }
}

proof fn lemma_deciding_runs_out(timeout: i64, deltas: Seq<u32>)
    requires
        deltas.len() >= 1,
        total(deltas.take(deltas.len() - 1)) >= timeout,
    ensures
        run_spec(SelectorState::Deciding(timeout), holding_a(deltas))
            == SelectorState::AboutToCancel,
    decreases deltas.len(),
{
    lemma_holding_a_step(deltas);
    let rest = deltas.drop_first();
    if timeout <= 0 {
        lemma_cancel_stays(rest);
    } else {
        let head = deltas.take(deltas.len() - 1);
        if deltas.len() == 1 {
            assert(head.len() == 0);
        }
        assert(head.drop_first() == rest.take(rest.len() - 1));
        assert(head[0] == deltas[0]);
        lemma_deciding_runs_out((timeout - deltas[0]) as i64, rest);
    }
}

/// From `Idle`, with button A held and the pad released on every tick, the
/// selector is `AboutToCancel` once the ticks spent deciding (all but the
/// first and the last) add up to the deciding time.
pub proof fn lemma_timeout_opens(deltas: Seq<u32>)
    requires
        deltas.len() >= 2,
        total(deltas.subrange(1, deltas.len() - 1)) >= DECIDING_TIME,
    ensures
        run_spec(SelectorState::Idle, holding_a(deltas)) == SelectorState::AboutToCancel,
{
    lemma_holding_a_step(deltas);
    let rest = deltas.drop_first();
    assert(rest.take(rest.len() - 1) == deltas.subrange(1, deltas.len() - 1));
    lemma_deciding_runs_out(DECIDING_TIME, rest);
}

pub open spec fn held_spec(choice: Option<Dpad>) -> Vec2 {
    match choice {
        Some(d) => dpad_vector(d),
        None => Vec2 { x: 0, y: 0 },
    }
}

/// `axis` moved half-way toward the direction of `choice`, or toward the
/// centre where nothing is chosen; each component truncated.
pub open spec fn halved(axis: Vec2, choice: Option<Dpad>) -> Vec2 {
    Vec2 {
        x: (axis.x + div_trunc(held_spec(choice).x - axis.x, 2)) as i64,
        y: (axis.y + div_trunc(held_spec(choice).y - axis.y, 2)) as i64,
    }
}

/// The selector: its state, the hand pointed at, a copy of the player for
/// display, and an axis that follows the pointed direction half-way each
/// tick.
#[derive(Clone, Copy, Debug)]
pub struct Selector {
    pub axis: Vec2,
    pub choice: Option<Dpad>,
    pub player: Player,
    pub state: SelectorState,
}

pub open spec fn axis_in_range(v: Vec2) -> bool {
    -1000 <= v.x <= 1000 && -1000 <= v.y <= 1000
}

/// Half-way from `a` to `b`, truncated toward zero.
fn halfway(a: i64, b: i64) -> (r: i64)
    requires
        -1000 <= a <= 1000,
        -1000 <= b <= 1000,
    ensures
        r == a + div_trunc(b - a, 2),
        -1000 <= r <= 1000,
{
    let d: i64 = b - a;
    if d >= 0 {
        a + d / 2
    } else {
        a - (-d) / 2
    }
}

impl Selector {
    pub fn new(player: Player) -> (r: Selector)
        ensures
            r.player == player,
            r.axis == (Vec2 { x: 0, y: 0 }),
            r.choice is None,
            r.state == SelectorState::Idle,
    {
        Selector { axis: Vec2 { x: 0, y: 0 }, choice: None, player, state: SelectorState::Idle }
    }

    /// The selector is shown while an item is chosen or about to be
    /// cancelled.
    pub fn is_visible(&self) -> (r: bool)
        ensures
            r == (self.state == SelectorState::ItemChosen || self.state
                == SelectorState::AboutToCancel),
    {
        match self.state {
            SelectorState::ItemChosen | SelectorState::AboutToCancel => true,
            _ => false,
        }
    }

    /// One tick of input: the state follows the transition table, the
    /// pressed direction is recorded as the choice in every state but `Idle`,
    /// and the axis moves half-way toward the choice.
    pub fn advance(&mut self, input: Input) -> (r: SelectorEvent)
        requires
            axis_in_range(old(self).axis),
        ensures
            (final(self).state, r) == next_spec(old(self).state, input),
            final(self).choice == if old(self).state == SelectorState::Idle {
                old(self).choice
            } else {
                input.dpad
            },
            final(self).axis == halved(old(self).axis, final(self).choice),
            axis_in_range(final(self).axis),
            final(self).player == old(self).player,
    {
        let (state, event) = next(self.state, input);
        if self.state != SelectorState::Idle {
            self.choice = input.dpad;
        }
        self.state = state;
        self.update();
        event
    }

    /// Moves the axis half-way toward the chosen direction, or toward the
    /// centre when nothing is chosen.
    pub fn update(&mut self)
        requires
            axis_in_range(old(self).axis),
        ensures
            final(self).axis == halved(old(self).axis, old(self).choice),
            axis_in_range(final(self).axis),
            final(self).choice == old(self).choice,
            final(self).state == old(self).state,
            final(self).player == old(self).player,
    {
        let target = match self.choice {
            Some(d) => d.vector(),
            None => Vec2 { x: 0, y: 0 },
        };
        self.axis = Vec2 { x: halfway(self.axis.x, target.x), y: halfway(self.axis.y, target.y) };
    }
}

} // verus!
