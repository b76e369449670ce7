//! What goes to the terminal, so that every line starts at its left edge.

use vstd::prelude::*;
use vstd::string::*;

verus! {

/// Carriage return.
pub const CR: u8 = 13;

/// Line feed.
pub const LF: u8 = 10;

/// The first `n` of `bytes`, with a carriage return put before every line feed that does not
/// follow one.
pub open spec fn with_returns(bytes: Seq<u8>, n: nat) -> Seq<u8>
    decreases n,
{
    if n == 0 {
        Seq::empty()
    } else {
        let i = n - 1;
        let before = with_returns(bytes, i as nat);
        if bytes[i] == LF && (i == 0 || bytes[i - 1] != CR) {
            before.push(CR).push(LF)
        } else {
            before.push(bytes[i])
        }
    }
}

/// `bytes` as they go to the terminal: they begin with a carriage return, and every line
/// feed follows one.
pub open spec fn terminal_bytes_of(bytes: Seq<u8>) -> Seq<u8> {
    let lead = if bytes.len() > 0 && bytes[0] != CR {
        seq![CR]
    } else {
        Seq::empty()
    };
    lead + with_returns(bytes, bytes.len())
}

/// `bytes` as they go to the terminal.
pub fn terminal_bytes(bytes: &[u8]) -> (out: Vec<u8>)
    ensures
        out@ == terminal_bytes_of(bytes@),
{
    let mut out: Vec<u8> = Vec::new();
    if bytes.len() > 0 && bytes[0] != CR {
        out.push(CR);
    }
    let ghost lead = out@;
    let mut i: usize = 0;
    assert(out@ =~= lead + with_returns(bytes@, 0));
    while i < bytes.len()
        invariant
            i <= bytes@.len(),
            out@ == lead + with_returns(bytes@, i as nat),
        decreases bytes@.len() - i,
    {
        let b: u8 = bytes[i];
        if b == LF && (i == 0 || bytes[i - 1] != CR) {
            out.push(CR);
        }
        out.push(b);
        assert(out@ =~= lead + with_returns(bytes@, (i + 1) as nat));
        i = i + 1;
    }
    assert(out@ =~= terminal_bytes_of(bytes@));
    out
}

/// What moves the cursor to the first column.
pub open spec fn cursor_to_left() -> Seq<char> {
    "\x1b[1G"@
}

/// The first `n` characters of `message`, with the cursor moved to the left after every line
/// feed that does not end the message.
pub open spec fn with_cursor_moves(message: Seq<char>, n: nat) -> Seq<char>
    decreases n,
{
    if n == 0 {
        Seq::empty()
    } else {
        let i = n - 1;
        let so_far = with_cursor_moves(message, i as nat).push(message[i]);
        if message[i] == '\n' && n < message.len() {
            so_far + cursor_to_left()
        } else {
            so_far
        }
    }
}

/// `message` as it goes to the terminal: each of its lines starts in the first column.
pub open spec fn terminal_text_of(message: Seq<char>) -> Seq<char> {
    cursor_to_left() + with_cursor_moves(message, message.len())
}

/// `message` as it goes to the terminal: each of its lines starts in the first column.
pub fn terminal_text(message: &str) -> (out: String)
    ensures
        out@ == terminal_text_of(message@),
{
    let count: usize = message.unicode_len();
    let mut out: String = String::new();
    out.append("\x1b[1G");
    assert(out@ =~= cursor_to_left() + with_cursor_moves(message@, 0));
    let mut i: usize = 0;
    for c in it: message.chars()
        invariant
            it.seq() == message@,
            i == it.index(),
            count == message@.len(),
            out@ == cursor_to_left() + with_cursor_moves(message@, i as nat),
    {
        out.push(c);
        i = i + 1;
        if c == '\n' && i < count {
            out.append("\x1b[1G");
        }
        assert(out@ =~= cursor_to_left() + with_cursor_moves(message@, i as nat));
    }
    out
}

/// The cursor is moved to the left right behind place `i`.
pub open spec fn moves_left_after(text: Seq<char>, i: int) -> bool {
    i + 1 + cursor_to_left().len() <= text.len() && text.subrange(
        i + 1,
        i + 1 + cursor_to_left().len(),
    ) == cursor_to_left()
}

proof fn lemma_cursor_moves(message: Seq<char>, n: nat)
    requires
        n <= message.len(),
    ensures
        forall|i: int|
            0 <= i < with_cursor_moves(message, n).len() && #[trigger] with_cursor_moves(
                message,
                n,
            )[i] == '\n' ==> moves_left_after(with_cursor_moves(message, n), i) || (n
                == message.len() && i == with_cursor_moves(message, n).len() - 1),
    decreases n,
{
    reveal_strlit("\x1b[1G");
    if n > 0 {
        let m = (n - 1) as nat;
        lemma_cursor_moves(message, m);
        let before = with_cursor_moves(message, m);
        let after = with_cursor_moves(message, n);
        assert forall|i: int| 0 <= i < after.len() && #[trigger] after[i] == '\n' implies {
            moves_left_after(after, i) || (n == message.len() && i == after.len() - 1)
        } by {
            let width = cursor_to_left().len() as int;
            if i < before.len() {
                assert(before[i] == '\n');
                assert(after.subrange(i + 1, i + 1 + width) =~= before.subrange(
                    i + 1,
                    i + 1 + width,
                ));
            } else if i == before.len() {
                if n < message.len() {
                    assert(after.subrange(i + 1, i + 1 + width) =~= cursor_to_left());
                }
            } else {
                assert(after[i] == cursor_to_left()[i - before.len() - 1]);
            }
        }
    }
}

/// Every line of a message starts with the cursor in the first column: the text begins by
/// moving it there, and every line feed but one at the very end is followed by such a move.
pub proof fn messages_start_at_the_left(message: Seq<char>)
    ensures
        cursor_to_left().is_prefix_of(terminal_text_of(message)),
        forall|i: int|
            0 <= i < terminal_text_of(message).len() && #[trigger] terminal_text_of(message)[i]
                == '\n' ==> moves_left_after(terminal_text_of(message), i) || i
                == terminal_text_of(message).len() - 1,
{
    reveal_strlit("\x1b[1G");
    lemma_cursor_moves(message, message.len());
    let inner = with_cursor_moves(message, message.len());
    let out = terminal_text_of(message);
    let width = cursor_to_left().len() as int;
    assert(cursor_to_left() =~= out.subrange(0, width));
    assert forall|i: int| 0 <= i < out.len() && #[trigger] out[i] == '\n' implies {
        moves_left_after(out, i) || i == out.len() - 1
    } by {
        if i < width {
            assert(out[i] == cursor_to_left()[i]);
        } else {
            assert(out[i] == inner[i - width]);
            if moves_left_after(inner, i - width) {
                assert(out.subrange(i + 1, i + 1 + width) =~= inner.subrange(
                    i - width + 1,
                    i + 1,
                ));
            }
        }
    }
}

/// What goes to the terminal begins with a carriage return unless it is empty, and every
/// line feed in it follows one.
pub proof fn lines_start_at_the_left(bytes: Seq<u8>)
    ensures
        terminal_bytes_of(bytes).len() > 0 ==> terminal_bytes_of(bytes)[0] == CR,
        forall|i: int|
            0 <= i < terminal_bytes_of(bytes).len() && #[trigger] terminal_bytes_of(bytes)[i] == LF
                ==> i > 0 && terminal_bytes_of(bytes)[i - 1] == CR,
{
    lemma_returns(bytes, bytes.len());
    let inner = with_returns(bytes, bytes.len());
    let out = terminal_bytes_of(bytes);
    let shift = out.len() - inner.len();
    assert forall|i: int| 0 <= i < out.len() && #[trigger] out[i] == LF implies i > 0 && out[i - 1]
        == CR by {
        assert(out[i] == inner[i - shift]);
        assert(out[i - 1] == inner[i - shift - 1]);
    }
    if bytes.len() > 0 && bytes[0] == CR {
        assert(out =~= inner);
    }
}

proof fn lemma_returns(bytes: Seq<u8>, n: nat)
    requires
        n <= bytes.len(),
    ensures
        with_returns(bytes, n).len() >= n,
        n > 0 ==> with_returns(bytes, n).last() == bytes[n - 1],
        n > 0 && bytes[0] == CR ==> with_returns(bytes, n)[0] == CR,
        forall|i: int|
            0 <= i < with_returns(bytes, n).len() && #[trigger] with_returns(bytes, n)[i] == LF ==> i
                > 0 && with_returns(bytes, n)[i - 1] == CR,
    decreases n,
{
    if n > 0 {
        let m = (n - 1) as nat;
        lemma_returns(bytes, m);
        let before = with_returns(bytes, m);
        let after = with_returns(bytes, n);
        assert forall|i: int| 0 <= i < after.len() && #[trigger] after[i] == LF implies i > 0
            && after[i - 1] == CR by {
            if i < before.len() {
                assert(before[i] == LF);
                assert(after[i - 1] == before[i - 1]);
            } else if bytes[m as int] == LF && (m == 0 || bytes[m - 1] != CR) {
                assert(i == before.len() + 1);
            } else {
                assert(i == before.len());
                assert(after[i - 1] == before.last());
            }
        }
    }
}

/// Nothing is lost on the way to the terminal, and nothing but carriage returns is added:
/// without those, the bytes are the same.
pub proof fn only_returns_are_added(bytes: Seq<u8>)
    ensures
        terminal_bytes_of(bytes).filter(|b: u8| b != CR) == bytes.filter(|b: u8| b != CR),
{
    let plain = |b: u8| b != CR;
    lemma_returns_keep_bytes(bytes, bytes.len());
    assert(bytes.take(bytes.len() as int) =~= bytes);
    let inner = with_returns(bytes, bytes.len());
    let lead = if bytes.len() > 0 && bytes[0] != CR {
        seq![CR]
    } else {
        Seq::empty()
    };
    Seq::filter_distributes_over_add(lead, inner, plain);
    assert(lead.filter(plain) =~= Seq::<u8>::empty()) by {
        reveal(Seq::filter);
        let none = Seq::<u8>::empty();
        assert(none.filter(plain) =~= none);
        if lead.len() > 0 {
            assert(lead.drop_last() =~= none);
            assert(lead.last() == CR);
            assert(lead.filter(plain) == lead.drop_last().filter(plain));
        } else {
            assert(lead =~= none);
        }
    }
    assert(terminal_bytes_of(bytes).filter(plain) =~= inner.filter(plain));
}

proof fn lemma_returns_keep_bytes(bytes: Seq<u8>, n: nat)
    requires
        n <= bytes.len(),
    ensures
        with_returns(bytes, n).filter(|b: u8| b != CR) == bytes.take(n as int).filter(
            |b: u8| b != CR,
        ),
    decreases n,
{
    reveal(Seq::filter);
    let plain = |b: u8| b != CR;
    if n > 0 {
        let m = (n - 1) as nat;
        lemma_returns_keep_bytes(bytes, m);
        let before = with_returns(bytes, m);
        assert(bytes.take(n as int).drop_last() =~= bytes.take(m as int));
        assert(before.push(bytes[m as int]).drop_last() =~= before);
        assert(before.push(CR).drop_last() =~= before);
        assert(before.push(CR).push(LF).drop_last() =~= before.push(CR));
        assert(before.push(CR).filter(plain) == before.filter(plain));
    } else {
        assert(bytes.take(0) =~= Seq::<u8>::empty());
    }
}

/// Bytes of which every line starts at the left already go to the terminal as they are.
pub proof fn lines_at_the_left_stay(bytes: Seq<u8>)
    requires
        bytes.len() > 0 ==> bytes[0] == CR,
        forall|i: int| 0 < i < bytes.len() && #[trigger] bytes[i] == LF ==> bytes[i - 1] == CR,
    ensures
        terminal_bytes_of(bytes) == bytes,
{
    lemma_returns_stay(bytes, bytes.len());
    assert(bytes.take(bytes.len() as int) =~= bytes);
    assert(terminal_bytes_of(bytes) =~= bytes);
}

proof fn lemma_returns_stay(bytes: Seq<u8>, n: nat)
    requires
        n <= bytes.len(),
        bytes.len() > 0 ==> bytes[0] == CR,
        forall|i: int| 0 < i < bytes.len() && #[trigger] bytes[i] == LF ==> bytes[i - 1] == CR,
    ensures
        with_returns(bytes, n) == bytes.take(n as int),
    decreases n,
{
    if n > 0 {
        lemma_returns_stay(bytes, (n - 1) as nat);
        assert(bytes.take(n as int) =~= bytes.take(n - 1).push(bytes[n - 1]));
    } else {
        assert(bytes.take(0) =~= Seq::<u8>::empty());
    }
}

proof fn lemma_moves_of_one_line(message: Seq<char>, n: nat)
    requires
        n <= message.len(),
        forall|i: int| 0 <= i < message.len() - 1 ==> #[trigger] message[i] != '\n',
    ensures
        with_cursor_moves(message, n) == message.take(n as int),
    decreases n,
{
    if n > 0 {
        lemma_moves_of_one_line(message, (n - 1) as nat);
        assert(message.take(n as int) =~= message.take(n - 1).push(message[n - 1]));
    } else {
        assert(message.take(0) =~= Seq::<char>::empty());
    }
}

proof fn lemma_moves_of_first_line(first: Seq<char>, rest: Seq<char>, n: nat)
    requires
        n < first.len(),
    ensures
        with_cursor_moves(first + rest, n) == with_cursor_moves(first, n),
    decreases n,
{
    if n > 0 {
        lemma_moves_of_first_line(first, rest, (n - 1) as nat);
    }
}

proof fn lemma_moves_of_next_lines(first: Seq<char>, rest: Seq<char>, n: nat)
    requires
        first.len() > 0,
        first.last() == '\n',
        rest.len() > 0,
        n <= rest.len(),
    ensures
        with_cursor_moves(first + rest, first.len() + n) == with_cursor_moves(first, first.len())
            + cursor_to_left() + with_cursor_moves(rest, n),
    decreases n,
{
    let whole = first + rest;
    let lead = with_cursor_moves(first, first.len()) + cursor_to_left();
    if n == 0 {
        lemma_moves_of_first_line(first, rest, (first.len() - 1) as nat);
        assert(with_cursor_moves(whole, first.len()) =~= lead);
        assert(lead + with_cursor_moves(rest, 0) =~= lead);
    } else {
        let m = (n - 1) as nat;
        lemma_moves_of_next_lines(first, rest, m);
        assert(whole[first.len() as int + m] == rest[m as int]);
        assert(with_cursor_moves(whole, first.len() + n) =~= lead + with_cursor_moves(rest, n));
    }
}

/// A message of one line goes to the terminal as it is, behind a move to the left; of more
/// lines, each goes as it would alone, one behind the other.
pub proof fn every_line_is_kept(first: Seq<char>, rest: Seq<char>)
    requires
        forall|i: int| 0 <= i < first.len() - 1 ==> #[trigger] first[i] != '\n',
    ensures
        terminal_text_of(first) == cursor_to_left() + first,
        first.len() > 0 && first.last() == '\n' && rest.len() > 0 ==> terminal_text_of(first + rest)
            == terminal_text_of(first) + terminal_text_of(rest),
{
    lemma_moves_of_one_line(first, first.len());
    assert(first.take(first.len() as int) =~= first);
    if first.len() > 0 && first.last() == '\n' && rest.len() > 0 {
        lemma_moves_of_next_lines(first, rest, rest.len());
        assert(terminal_text_of(first + rest) =~= terminal_text_of(first) + terminal_text_of(rest));
    }
}

/// The cursor is moved by the terminal's control sequence for the first column.
pub proof fn the_cursor_goes_to_the_first_column()
    ensures
        cursor_to_left() == seq!['\x1b', '[', '1', 'G'],
{
    reveal_strlit("\x1b[1G");
    assert(cursor_to_left() =~= seq!['\x1b', '[', '1', 'G']);
}

} // verus!
