//! The protocol codec: the fixed, case-sensitive command vocabulary carried
//! as newline-delimited text between the two peers.
//!
//! One command stands on one line. A line opening with `!` is a private
//! message whose payload follows the prefix; one opening with `@` asks to
//! place a mark and carries one-based coordinates as `@(<row>,<col>)`, with
//! whitespace tolerated around the numbers; the restart handshake uses the
//! exact literals `play-again` and `agree`; `help`, `clear` and `quit` are
//! local-only words that never cross the wire.
use vstd::prelude::*;

verus! {

/// ASCII whitespace as the tolerant placement pattern accepts it.
pub open spec fn is_ws(b: u8) -> bool {
    b == 32 || b == 9 || b == 10 || b == 11 || b == 12 || b == 13
}

/// An ASCII decimal digit.
pub open spec fn is_digit(b: u8) -> bool {
    48 <= b <= 57
}

/// The first position at or after `i` that does not hold whitespace.
pub open spec fn skip_ws(s: Seq<u8>, i: int) -> int
    decreases s.len() - i when 0 <= i <= s.len()
{
    if i < s.len() && is_ws(s[i]) {
        skip_ws(s, i + 1)
    } else {
        i
    }
}

/// The first position at or after `i` that does not hold a digit.
pub open spec fn digits_end(s: Seq<u8>, i: int) -> int
    decreases s.len() - i when 0 <= i <= s.len()
{
    if i < s.len() && is_digit(s[i]) {
        digits_end(s, i + 1)
    } else {
        i
    }
}

/// The decimal value of the digit run `s[start..end)`.
pub open spec fn digits_value(s: Seq<u8>, start: int, end: int) -> int
    decreases end - start,
{
    if start >= end {
        0
    } else {
        digits_value(s, start, end - 1) * 10 + (s[end - 1] - 48)
    }
}

proof fn lemma_skip_ws_bounds(s: Seq<u8>, i: int)
    requires
        0 <= i <= s.len(),
    ensures
        i <= skip_ws(s, i) <= s.len(),
    decreases s.len() - i,
{
    if i < s.len() && is_ws(s[i]) {
        lemma_skip_ws_bounds(s, i + 1);
    }
}

proof fn lemma_digits_end_bounds(s: Seq<u8>, i: int)
    requires
        0 <= i <= s.len(),
    ensures
        i <= digits_end(s, i) <= s.len(),
        forall|j: int| i <= j < digits_end(s, i) ==> is_digit(#[trigger] s[j]),
    decreases s.len() - i,
{
    if i < s.len() && is_digit(s[i]) {
        lemma_digits_end_bounds(s, i + 1);
    }
}

/// A digit run has a non-negative value.
proof fn lemma_digits_value_nonneg(s: Seq<u8>, start: int, end: int)
    requires
        forall|j: int| start <= j < end ==> is_digit(#[trigger] s[j]),
    ensures
        digits_value(s, start, end) >= 0,
    decreases end - start,
{
    if start < end {
        lemma_digits_value_nonneg(s, start, end - 1);
    }
}

/// Extending a digit run to the right never shrinks its value.
proof fn lemma_digits_value_monotonic(s: Seq<u8>, start: int, e1: int, e2: int)
    requires
        start <= e1 <= e2,
        forall|j: int| start <= j < e2 ==> is_digit(#[trigger] s[j]),
    ensures
        digits_value(s, start, e1) <= digits_value(s, start, e2),
    decreases e2 - e1,
{
    if e1 < e2 {
        lemma_digits_value_monotonic(s, start, e1, e2 - 1);
        lemma_digits_value_nonneg(s, start, e2 - 1);
    }
}

/// What a line opening with `@` asks for: the two one-based coordinates of
/// the placement, or nothing when the line does not fit the pattern
/// `@(<row>,<col>)` — whitespace tolerated before the parenthesis and around
/// the numbers, anything after the closing parenthesis ignored. A group
/// without a single digit does not fit the pattern.
pub open spec fn place_decoded(s: Seq<u8>) -> Option<(int, int)> {
    if s.len() < 1 || s[0] != 64 {
        None
    } else {
        let i1 = skip_ws(s, 1);
        if i1 >= s.len() || s[i1] != 40 {
            None
        } else {
            let i2 = skip_ws(s, i1 + 1);
            let e1 = digits_end(s, i2);
            if e1 == i2 {
                None
            } else {
                let i3 = skip_ws(s, e1);
                if i3 >= s.len() || s[i3] != 44 {
                    None
                } else {
                    let i4 = skip_ws(s, i3 + 1);
                    let e2 = digits_end(s, i4);
                    if e2 == i4 {
                        None
                    } else {
                        let i5 = skip_ws(s, e2);
                        if i5 >= s.len() || s[i5] != 41 {
                            None
                        } else {
                            Some((digits_value(s, i2, e1), digits_value(s, i4, e2)))
                        }
                    }
                }
            }
        }
    }
}

/// Decoded coordinates are values of digit runs, so never negative.
pub proof fn lemma_place_decoded_nonneg(s: Seq<u8>)
    ensures
        match place_decoded(s) {
            Some(rc) => rc.0 >= 0 && rc.1 >= 0,
            None => true,
        },
{
    if s.len() >= 1 && s[0] == 64 {
        lemma_skip_ws_bounds(s, 1);
        let i1 = skip_ws(s, 1);
        if i1 < s.len() && s[i1] == 40 {
            lemma_skip_ws_bounds(s, i1 + 1);
            let i2 = skip_ws(s, i1 + 1);
            lemma_digits_end_bounds(s, i2);
            let e1 = digits_end(s, i2);
            if e1 != i2 {
                lemma_skip_ws_bounds(s, e1);
                let i3 = skip_ws(s, e1);
                if i3 < s.len() && s[i3] == 44 {
                    lemma_skip_ws_bounds(s, i3 + 1);
                    let i4 = skip_ws(s, i3 + 1);
                    lemma_digits_end_bounds(s, i4);
                    let e2 = digits_end(s, i4);
                    if e2 != i4 {
                        lemma_digits_value_nonneg(s, i2, e1);
                        lemma_digits_value_nonneg(s, i4, e2);
                    }
                }
            }
        }
    }
}

/// The line decodes to coordinates that this machine can hold.
pub open spec fn place_decodable(s: Seq<u8>) -> bool {
    match place_decoded(s) {
        Some(rc) => rc.0 <= usize::MAX && rc.1 <= usize::MAX,
        None => false,
    }
}

/// A line that asks to place a mark: it opens with `@`.
pub open spec fn is_place_command(s: Seq<u8>) -> bool {
    s.len() >= 1 && s[0] == 64
}

/// A line that carries a private message: it opens with `!`.
pub open spec fn is_private_message(s: Seq<u8>) -> bool {
    s.len() >= 1 && s[0] == 33
}

/// The exact literal that asks the peer to restart a finished game.
pub open spec fn play_again_command() -> Seq<u8> {
    seq![112u8, 108u8, 97u8, 121u8, 45u8, 97u8, 103u8, 97u8, 105u8, 110u8]
}

/// The exact literal that accepts a pending restart request.
pub open spec fn agree_command() -> Seq<u8> {
    seq![97u8, 103u8, 114u8, 101u8, 101u8]
}

/// The exact literal that shows the command vocabulary; local-only.
pub open spec fn help_command() -> Seq<u8> {
    seq![104u8, 101u8, 108u8, 112u8]
}

/// The exact literal that clears the window; local-only.
pub open spec fn clear_command() -> Seq<u8> {
    seq![99u8, 108u8, 101u8, 97u8, 114u8]
}

/// The exact literal that quits the application; local-only.
pub open spec fn quit_command() -> Seq<u8> {
    seq![113u8, 117u8, 105u8, 116u8]
}

/// What the interactive side does with one user-entered line: the five
/// exact literals are commands — three of them local-only, never sent —
/// and every other line is handed to the session to forward, placements
/// and private messages among them.
#[derive(Copy, Clone, Debug, PartialEq, Eq, Structural)]
pub enum LocalCommand {
    Help,
    Clear,
    PlayAgain,
    Agree,
    Quit,
    Forward,
}

/// The command a user-entered line means, after trimming.
pub open spec fn local_command_of(s: Seq<u8>) -> LocalCommand {
    if s == help_command() {
        LocalCommand::Help
    } else if s == clear_command() {
        LocalCommand::Clear
    } else if s == play_again_command() {
        LocalCommand::PlayAgain
    } else if s == agree_command() {
        LocalCommand::Agree
    } else if s == quit_command() {
        LocalCommand::Quit
    } else {
        LocalCommand::Forward
    }
}

/// Reads one user-entered line (already trimmed) as a command.
pub fn classify_local_command(line: &[u8]) -> (r: LocalCommand)
    ensures
        r == local_command_of(line@),
{
    let help_lit: [u8; 4] = [104, 101, 108, 112];
    let clear_lit: [u8; 5] = [99, 108, 101, 97, 114];
    let quit_lit: [u8; 4] = [113, 117, 105, 116];
    proof {
        assert(help_lit@ =~= help_command());
        assert(clear_lit@ =~= clear_command());
        assert(quit_lit@ =~= quit_command());
    }
    if bytes_eq(line, help_lit.as_slice()) {
        LocalCommand::Help
    } else if bytes_eq(line, clear_lit.as_slice()) {
        LocalCommand::Clear
    } else if check_play_again(line) {
        LocalCommand::PlayAgain
    } else if check_agree(line) {
        LocalCommand::Agree
    } else if bytes_eq(line, quit_lit.as_slice()) {
        LocalCommand::Quit
    } else {
        LocalCommand::Forward
    }
}

/// The prefix `s[0..i]` dropped from the right: the first position from the
/// right at or below `i` that does not follow whitespace.
pub open spec fn rskip_ws(s: Seq<u8>, i: int) -> int
    decreases i when 0 <= i <= s.len()
{
    if i > 0 && is_ws(s[i - 1]) {
        rskip_ws(s, i - 1)
    } else {
        i
    }
}

/// The line with leading and trailing whitespace removed.
pub open spec fn trimmed(s: Seq<u8>) -> Seq<u8> {
    let a = skip_ws(s, 0);
    let b = rskip_ws(s, s.len() as int);
    if a <= b {
        s.subrange(a, b)
    } else {
        Seq::empty()
    }
}

/// True when the byte is whitespace.
fn byte_is_ws(b: u8) -> (r: bool)
    ensures
        r == is_ws(b),
{
    b == 32 || b == 9 || b == 10 || b == 11 || b == 12 || b == 13
}

/// True when the byte is a decimal digit.
fn byte_is_digit(b: u8) -> (r: bool)
    ensures
        r == is_digit(b),
{
    48 <= b && b <= 57
}

/// Scans past whitespace from `from`.
fn skip_ws_from(s: &[u8], from: usize) -> (r: usize)
    requires
        from <= s@.len(),
    ensures
        r == skip_ws(s@, from as int),
        from <= r <= s@.len(),
{
    let len: usize = s.len();
    let mut i: usize = from;
    while i < len && byte_is_ws(s[i])
        invariant
            from <= i <= len,
            len == s@.len(),
            skip_ws(s@, from as int) == skip_ws(s@, i as int),
        decreases len - i,
    {
        proof {
            assert(skip_ws(s@, i as int) == skip_ws(s@, i as int + 1));
        }
        i += 1;
    }
    i
}

/// Scans past digits from `from`.
fn digits_end_from(s: &[u8], from: usize) -> (r: usize)
    requires
        from <= s@.len(),
    ensures
        r == digits_end(s@, from as int),
        from <= r <= s@.len(),
{
    let len: usize = s.len();
    let mut i: usize = from;
    while i < len && byte_is_digit(s[i])
        invariant
            from <= i <= len,
            len == s@.len(),
            digits_end(s@, from as int) == digits_end(s@, i as int),
        decreases len - i,
    {
        proof {
            assert(digits_end(s@, i as int) == digits_end(s@, i as int + 1));
        }
        i += 1;
    }
    i
}

/// Reads the decimal value of the digit run `s[start..end)`, or nothing when
/// the value does not fit the machine.
fn parse_digits(s: &[u8], start: usize, end: usize) -> (r: Option<usize>)
    requires
        start <= end <= s@.len(),
        forall|j: int| start <= j < end ==> is_digit(#[trigger] s@[j]),
    ensures
        digits_value(s@, start as int, end as int) <= usize::MAX ==> r == Some(
            digits_value(s@, start as int, end as int) as usize,
        ),
        digits_value(s@, start as int, end as int) > usize::MAX ==> r is None,
{
    let mut acc: usize = 0;
    let mut i: usize = start;
    while i < end
        invariant
            start <= i <= end <= s@.len(),
            forall|j: int| start <= j < end ==> is_digit(#[trigger] s@[j]),
            acc == digits_value(s@, start as int, i as int),
        decreases end - i,
    {
        let d: u8 = s[i] - 48;
        proof {
            let sv = s@;
            assert(digits_value(sv, start as int, i as int + 1) == digits_value(
                sv,
                start as int,
                i as int,
            ) * 10 + d);
        }
        let widened = match acc.checked_mul(10) {
            Some(w) => w.checked_add(d as usize),
            None => None,
        };
        match widened {
            Some(next) => {
                acc = next;
                i += 1;
            },
            None => {
                proof {
                    lemma_digits_value_monotonic(s@, start as int, i as int + 1, end as int);
                }
                return None;
            },
        }
    }
    Some(acc)
}

/// Decodes a placement line to its one-based `(row, col)`, or nothing when
/// the line does not fit the pattern or a coordinate does not fit the
/// machine.
pub fn decode_place(data: &[u8]) -> (r: Option<(usize, usize)>)
    ensures
        place_decodable(data@) ==> ({
            let rc = place_decoded(data@)->Some_0;
            r == Some((rc.0 as usize, rc.1 as usize))
        }),
        !place_decodable(data@) ==> r is None,
{
    let len: usize = data.len();
    if len < 1 || data[0] != 64 {
        return None;
    }
    let i1: usize = skip_ws_from(data, 1);
    if i1 >= len || data[i1] != 40 {
        return None;
    }
    let i2: usize = skip_ws_from(data, i1 + 1);
    let e1: usize = digits_end_from(data, i2);
    if e1 == i2 {
        return None;
    }
    let i3: usize = skip_ws_from(data, e1);
    if i3 >= len || data[i3] != 44 {
        return None;
    }
    let i4: usize = skip_ws_from(data, i3 + 1);
    let e2: usize = digits_end_from(data, i4);
    if e2 == i4 {
        return None;
    }
    let i5: usize = skip_ws_from(data, e2);
    if i5 >= len || data[i5] != 41 {
        return None;
    }
    proof {
        lemma_digits_end_bounds(data@, i2 as int);
        lemma_digits_end_bounds(data@, i4 as int);
    }
    let row = match parse_digits(data, i2, e1) {
        Some(v) => v,
        None => {
            return None;
        },
    };
    let col = match parse_digits(data, i4, e2) {
        Some(v) => v,
        None => {
            return None;
        },
    };
    Some((row, col))
}

/// Two sequences that agree on `[start, end)` give a digit run there the
/// same value.
proof fn lemma_digits_value_congruence(s1: Seq<u8>, s2: Seq<u8>, start: int, end: int)
    requires
        forall|j: int| start <= j < end ==> s1[j] == s2[j],
    ensures
        digits_value(s1, start, end) == digits_value(s2, start, end),
    decreases end - start,
{
    if start < end {
        lemma_digits_value_congruence(s1, s2, start, end - 1);
    }
}

/// A run of digits bounded by a non-digit ends exactly at the bound.
proof fn lemma_digits_end_at(s: Seq<u8>, i: int, e: int)
    requires
        0 <= i <= e < s.len(),
        forall|j: int| i <= j < e ==> is_digit(#[trigger] s[j]),
        !is_digit(s[e]),
    ensures
        digits_end(s, i) == e,
    decreases e - i,
{
    if i < e {
        lemma_digits_end_at(s, i + 1, e);
    }
}

/// The decimal digit bytes of `n`, most significant first.
pub open spec fn decimal_digits(n: nat) -> Seq<u8>
    decreases n,
{
    if n < 10 {
        seq![(n + 48) as u8]
    } else {
        decimal_digits(n / 10).push((n % 10 + 48) as u8)
    }
}

/// Appends the decimal digits of `n`, most significant first.
fn push_decimal_digits(n: usize, out: &mut Vec<u8>)
    ensures
        final(out)@ == old(out)@ + decimal_digits(n as nat),
        final(out)@.len() > old(out)@.len(),
        forall|j: int| 0 <= j < old(out)@.len() ==> final(out)@[j] == old(out)@[j],
        forall|j: int|
            old(out)@.len() <= j < final(out)@.len() ==> is_digit(#[trigger] final(out)@[j]),
        digits_value(final(out)@, old(out)@.len() as int, final(out)@.len() as int) == n,
    decreases n,
{
    if n >= 10 {
        push_decimal_digits(n / 10, out);
    }
    let ghost mid = out@;
    let d: u8 = (n % 10) as u8 + 48;
    out.push(d);
    proof {
        let a = old(out)@.len() as int;
        let e = out@.len() as int;
        assert(out@ =~= old(out)@ + decimal_digits(n as nat));
        lemma_digits_value_congruence(mid, out@, a, e - 1);
        if n >= 10 {
            assert(digits_value(out@, a, e) == digits_value(out@, a, e - 1) * 10 + (d - 48));
            assert(n == (n / 10) * 10 + n % 10) by {
                vstd::arithmetic::div_mod::lemma_fundamental_div_mod(n as int, 10);
            }
        } else {
            assert(digits_value(out@, a, e) == digits_value(out@, a, e - 1) * 10 + (d - 48));
        }
    }
}

/// Writes a placement as its wire form, the inverse of the decoding: the
/// one-based coordinates between parentheses after the `@` prefix, with a
/// trailing newline as framing. Decoding the produced line gives the
/// coordinates back.
pub fn encode_place(row: usize, col: usize) -> (r: Vec<u8>)
    ensures
        r@ == seq![64u8, 40u8] + decimal_digits(row as nat) + seq![44u8] + decimal_digits(
            col as nat,
        ) + seq![41u8, 10u8],
        place_decoded(r@) == Some((row as int, col as int)),
{
    let mut out: Vec<u8> = Vec::new();
    out.push(64);  // '@'
    out.push(40);  // '('
    let ghost row_start: int = out@.len() as int;
    push_decimal_digits(row, &mut out);
    let ghost row_end: int = out@.len() as int;
    let ghost after_row = out@;
    out.push(44);  // ','
    let ghost col_start: int = out@.len() as int;
    push_decimal_digits(col, &mut out);
    let ghost col_end: int = out@.len() as int;
    let ghost after_col = out@;
    out.push(41);  // ')'
    out.push(10);  // '\n'
    proof {
        let s = out@;
        assert(forall|j: int| 0 <= j < col_end ==> s[j] == after_col[j]);
        assert(forall|j: int| 0 <= j < row_end ==> after_col[j] == after_row[j]);
        assert(s[0] == 64);
        assert(s[1] == 40);
        assert(skip_ws(s, 1) == 1);
        assert(skip_ws(s, 2) == 2) by {
            assert(is_digit(s[2]) && !is_ws(s[2]));
        }
        assert(forall|j: int| row_start <= j < row_end ==> is_digit(#[trigger] s[j]));
        assert(s[row_end] == 44 && !is_digit(s[row_end]) && !is_ws(s[row_end]));
        lemma_digits_end_at(s, row_start, row_end);
        assert(skip_ws(s, row_end) == row_end);
        assert(skip_ws(s, col_start) == col_start) by {
            assert(is_digit(s[col_start]) && !is_ws(s[col_start]));
        }
        assert(forall|j: int| col_start <= j < col_end ==> is_digit(#[trigger] s[j]));
        assert(s[col_end] == 41 && !is_digit(s[col_end]) && !is_ws(s[col_end]));
        lemma_digits_end_at(s, col_start, col_end);
        assert(skip_ws(s, col_end) == col_end);
        lemma_digits_value_congruence(after_row, s, row_start, row_end);
        lemma_digits_value_congruence(after_col, s, col_start, col_end);
        assert(digits_value(s, row_start, row_end) == row);
        assert(digits_value(s, col_start, col_end) == col);
        assert(s =~= seq![64u8, 40u8] + decimal_digits(row as nat) + seq![44u8] + decimal_digits(
            col as nat,
        ) + seq![41u8, 10u8]);
    }
    out
}

/// True when the two byte strings are equal.
fn bytes_eq(a: &[u8], b: &[u8]) -> (r: bool)
    ensures
        r == (a@ == b@),
{
    if a.len() != b.len() {
        return false;
    }
    let len: usize = a.len();
    let mut i: usize = 0;
    while i < len
        invariant
            len == a@.len() == b@.len(),
            0 <= i <= len,
            forall|j: int| 0 <= j < i ==> a@[j] == b@[j],
        decreases len - i,
    {
        if a[i] != b[i] {
            assert(a@[i as int] != b@[i as int]);
            return false;
        }
        i += 1;
    }
    proof {
        assert(a@ =~= b@);
    }
    true
}

/// True when the line opens with `@`.
pub fn check_place_command(data: &[u8]) -> (r: bool)
    ensures
        r == is_place_command(data@),
{
    data.len() >= 1 && data[0] == 64
}

/// True when the line opens with `!`.
pub fn check_private_message(data: &[u8]) -> (r: bool)
    ensures
        r == is_private_message(data@),
{
    data.len() >= 1 && data[0] == 33
}

/// True when the line is the restart-request literal.
pub fn check_play_again(data: &[u8]) -> (r: bool)
    ensures
        r == (data@ == play_again_command()),
{
    let lit: [u8; 10] = [112, 108, 97, 121, 45, 97, 103, 97, 105, 110];
    proof {
        assert(lit@ =~= play_again_command());
    }
    bytes_eq(data, lit.as_slice())
}

/// True when the line is the agreement literal.
pub fn check_agree(data: &[u8]) -> (r: bool)
    ensures
        r == (data@ == agree_command()),
{
    let lit: [u8; 5] = [97, 103, 114, 101, 101];
    proof {
        assert(lit@ =~= agree_command());
    }
    bytes_eq(data, lit.as_slice())
}

/// The line with leading and trailing whitespace removed.
pub fn trim_line(data: &[u8]) -> (r: Vec<u8>)
    ensures
        r@ == trimmed(data@),
{
    let len: usize = data.len();
    let start: usize = skip_ws_from(data, 0);
    let mut end: usize = len;
    while end > start && byte_is_ws(data[end - 1])
        invariant
            start <= end <= len,
            len == data@.len(),
            start == skip_ws(data@, 0),
            rskip_ws(data@, len as int) == rskip_ws(data@, end as int),
        decreases end,
    {
        proof {
            assert(rskip_ws(data@, end as int) == rskip_ws(data@, end as int - 1));
        }
        end -= 1;
    }
    // Here either end == start, or data[end - 1] is not whitespace; in both
    // cases the right scan of the whole line has settled at `end`, except
    // when the line is all whitespace, where start == end bounds an empty
    // result just as the model does.
    let mut out: Vec<u8> = Vec::new();
    let mut i: usize = start;
    while i < end
        invariant
            start <= i <= end <= len,
            len == data@.len(),
            out@.len() == i - start,
            forall|j: int| 0 <= j < i - start ==> out@[j] == data@[start + j],
        decreases end - i,
    {
        out.push(data[i]);
        i += 1;
    }
    proof {
        let sv = data@;
        let a = skip_ws(sv, 0);
        let b = rskip_ws(sv, sv.len() as int);
        if end > start {
            assert(rskip_ws(sv, end as int) == end as int);
            assert(out@ =~= trimmed(sv));
        } else {
            // The scan from the right came down to `start`: everything from
            // `start` on is whitespace, so the model's right bound is at or
            // below `start` and the trimmed line is empty.
            lemma_rskip_le_skip(sv, end as int);
            assert(out@ =~= trimmed(sv));
        }
    }
    out
}

/// When the right scan has reached a position at or below the left scan's
/// result, the model's bounds cross or meet there: the trimmed line is
/// empty or exactly the crossing point.
proof fn lemma_rskip_le_skip(s: Seq<u8>, e: int)
    requires
        0 <= e <= s.len(),
        e <= skip_ws(s, 0),
    ensures
        rskip_ws(s, e) <= skip_ws(s, 0),
    decreases e,
{
    if e > 0 && is_ws(s[e - 1]) {
        lemma_rskip_le_skip(s, e - 1);
    }
}

/// The line with exactly one newline appended: the framing of every
/// outbound command.
pub fn frame_line(line: &[u8]) -> (r: Vec<u8>)
    ensures
        r@ == line@.push(10u8),
{
    let len: usize = line.len();
    let mut out: Vec<u8> = Vec::new();
    let mut i: usize = 0;
    while i < len
        invariant
            0 <= i <= len,
            len == line@.len(),
            out@.len() == i,
            forall|j: int| 0 <= j < i ==> out@[j] == line@[j],
        decreases len - i,
    {
        out.push(line[i]);
        i += 1;
    }
    out.push(10);
    proof {
        assert(out@ =~= line@.push(10u8));
    }
    out
}

} // verus!
