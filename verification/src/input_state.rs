//! The prefix-key protocol: which typed bytes are commands, and which are plain input.

use vstd::prelude::*;

verus! {

/// Ctrl-b.
pub const PREFIX: u8 = 0x02;

#[derive(Clone, Copy, Debug, PartialEq, Eq, Structural)]
pub enum InputState {
    /// Bytes pass through to the focused pane.
    Normal,
    /// The prefix was seen; the next byte is a command.
    Prefix,
}

/// What a run of typed bytes comes to: the state it ends in, the commands it gives, and
/// the bytes it passes on.
#[verifier::ext_equal]
pub struct Parsed<C> {
    pub state: InputState,
    pub commands: Seq<C>,
    pub pass: Seq<u8>,
}

/// What byte `b` adds to what came before it. `table` says which byte after the prefix is
/// which command. A second prefix stands for the prefix byte itself, and any other byte
/// after the prefix is swallowed.
pub open spec fn feed<C>(table: spec_fn(u8) -> Option<C>, p: Parsed<C>, b: u8) -> Parsed<C> {
    match p.state {
        InputState::Normal => if b == PREFIX {
            Parsed { state: InputState::Prefix, ..p }
        } else {
            Parsed { pass: p.pass.push(b), ..p }
        },
        InputState::Prefix => if b == PREFIX {
            Parsed { state: InputState::Normal, pass: p.pass.push(PREFIX), ..p }
        } else {
            match table(b) {
                Some(c) => Parsed {
                    state: InputState::Normal,
                    commands: p.commands.push(c),
                    ..p
                },
                None => Parsed { state: InputState::Normal, ..p },
            }
        },
    }
}

/// What the bytes come to when they are typed in the given state.
pub open spec fn parse<C>(
    table: spec_fn(u8) -> Option<C>,
    state: InputState,
    bytes: Seq<u8>,
) -> Parsed<C>
    decreases bytes.len(),
{
    if bytes.len() == 0 {
        Parsed { state, commands: Seq::empty(), pass: Seq::empty() }
    } else {
        feed(table, parse(table, state, bytes.drop_last()), bytes.last())
    }
}

/// Input may arrive in pieces of any size: parsing it piece by piece comes to the same
/// commands, the same passed bytes and the same state as parsing it at once.
pub proof fn law_input_in_pieces<C>(
    table: spec_fn(u8) -> Option<C>,
    state: InputState,
    a: Seq<u8>,
    b: Seq<u8>,
)
    ensures
        ({
            let first = parse(table, state, a);
            let second = parse(table, first.state, b);
            let whole = parse(table, state, a + b);
            &&& whole.state == second.state
            &&& whole.commands == first.commands + second.commands
            &&& whole.pass == first.pass + second.pass
        }),
    decreases b.len(),
{
    let first = parse(table, state, a);
    if b.len() == 0 {
        assert(a + b =~= a);
        assert(first.commands + Seq::empty() =~= first.commands);
        assert(first.pass + Seq::empty() =~= first.pass);
    } else {
        law_input_in_pieces(table, state, a, b.drop_last());
        assert((a + b).drop_last() =~= a + b.drop_last());
        assert((a + b).last() == b.last());
    }
}

/// Bytes without the prefix, typed in the normal state, pass through unchanged and give no
/// command.
pub proof fn law_plain_input_passes<C>(table: spec_fn(u8) -> Option<C>, bytes: Seq<u8>)
    requires
        !bytes.contains(PREFIX),
    ensures
        parse(table, InputState::Normal, bytes) == (Parsed {
            state: InputState::Normal,
            commands: Seq::<C>::empty(),
            pass: bytes,
        }),
    decreases bytes.len(),
{
    if bytes.len() > 0 {
        assert forall|i: int| 0 <= i < bytes.drop_last().len() implies bytes.drop_last()[i]
            != PREFIX by {
            assert(bytes[i] == bytes.drop_last()[i]);
        }
        assert(bytes[bytes.len() - 1] == bytes.last());
        law_plain_input_passes(table, bytes.drop_last());
        assert(bytes.drop_last().push(bytes.last()) =~= bytes);
    }
    assert(parse(table, InputState::Normal, bytes) =~= (Parsed {
        state: InputState::Normal,
        commands: Seq::<C>::empty(),
        pass: bytes,
    }));
}

/// `bytes` with every prefix byte doubled.
pub open spec fn escape_prefix(bytes: Seq<u8>) -> Seq<u8>
    decreases bytes.len(),
{
    if bytes.len() == 0 {
        Seq::empty()
    } else if bytes.last() == PREFIX {
        escape_prefix(bytes.drop_last()).push(PREFIX).push(PREFIX)
    } else {
        escape_prefix(bytes.drop_last()).push(bytes.last())
    }
}

/// Any bytes at all can be sent: with every prefix byte doubled they come through as they
/// are, and give no command.
pub proof fn law_doubled_prefix_is_literal<C>(table: spec_fn(u8) -> Option<C>, bytes: Seq<u8>)
    ensures
        parse(table, InputState::Normal, escape_prefix(bytes)) == (Parsed {
            state: InputState::Normal,
            commands: Seq::<C>::empty(),
            pass: bytes,
        }),
    decreases bytes.len(),
{
    if bytes.len() > 0 {
        let e = escape_prefix(bytes.drop_last());
        law_doubled_prefix_is_literal(table, bytes.drop_last());
        assert(bytes.drop_last().push(bytes.last()) =~= bytes);
        if bytes.last() == PREFIX {
            assert(e.push(PREFIX).push(PREFIX).drop_last() =~= e.push(PREFIX));
            assert(e.push(PREFIX).drop_last() =~= e);
            reveal_with_fuel(parse, 3);
        } else {
            assert(e.push(bytes.last()).drop_last() =~= e);
        }
    }
    assert(parse(table, InputState::Normal, escape_prefix(bytes)) =~= (Parsed {
        state: InputState::Normal,
        commands: Seq::<C>::empty(),
        pass: bytes,
    }));
}

} // verus!
