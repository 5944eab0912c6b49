//! Helpers for an interactive shell around the engine: tokenizing a
//! command line, recognizing agent addresses, and framing the JSON-RPC
//! requests that submit calls to a running conductor. The transport itself
//! (HTTP, the prompt loop) lives outside the library.

use vstd::prelude::*;
use vstd::string::StrSliceExecFns;
use vstd::string::StringExecFns;
use crate::state::spec_digit_char;
use crate::text::push_char;

verus! {

/// Whether a character counts as whitespace for command-line tokenizing.
/// Named after `char::is_whitespace`, whose full definition is the Unicode
/// `White_Space` list.
pub uninterp spec fn spec_is_whitespace(c: char) -> bool;

/// Relies on `char::is_whitespace`: true exactly of the characters with
/// the Unicode `White_Space` property, a function of the character alone.
/// Within ASCII that property holds of the space character and of the five
/// control characters U+0009 through U+000D, and of nothing else.
#[verifier::external_body]
fn is_whitespace_char(c: char) -> (r: bool)
    ensures
        r == spec_is_whitespace(c),
        (c as u32) < 0x80 ==> (r <==> (c == ' ' || (0x09 <= c as u32 && c as u32 <= 0x0D))),
{
    c.is_whitespace()
}

/// `s` with its leading whitespace removed.
pub open spec fn spec_drop_leading_ws(s: Seq<char>) -> Seq<char>
    decreases s.len(),
{
    if s.len() > 0 && spec_is_whitespace(s[0]) {
        spec_drop_leading_ws(s.drop_first())
    } else {
        s
    }
}

/// `s` with its trailing whitespace removed.
pub open spec fn spec_drop_trailing_ws(s: Seq<char>) -> Seq<char>
    decreases s.len(),
{
    if s.len() > 0 && spec_is_whitespace(s.last()) {
        spec_drop_trailing_ws(s.drop_last())
    } else {
        s
    }
}

/// `s` with whitespace removed from both ends.
pub open spec fn spec_trim(s: Seq<char>) -> Seq<char> {
    spec_drop_trailing_ws(spec_drop_leading_ws(s))
}

/// The longest whitespace-free prefix of `s`.
pub open spec fn spec_first_word(s: Seq<char>) -> Seq<char>
    decreases s.len(),
{
    if s.len() > 0 && !spec_is_whitespace(s[0]) {
        seq![s[0]] + spec_first_word(s.drop_first())
    } else {
        Seq::empty()
    }
}

/// When the first `i` characters of `s` are whitespace and either the
/// string ends there or a non-whitespace character follows, dropping the
/// leading whitespace is the same as skipping those `i` characters.
proof fn lemma_drop_leading_ws_skip(s: Seq<char>, i: int)
    requires
        0 <= i <= s.len(),
        forall|m: int| 0 <= m < i ==> spec_is_whitespace(#[trigger] s[m]),
        i == s.len() || !spec_is_whitespace(s[i]),
    ensures
        spec_drop_leading_ws(s) == s.skip(i),
    decreases i,
{
    if i == 0 {
        assert(spec_drop_leading_ws(s) == s);
        assert(s.skip(0) =~= s);
    } else {
        assert(spec_is_whitespace(s[0]));
        let t = s.drop_first();
        assert(forall|m: int| 0 <= m < i - 1 ==> spec_is_whitespace(#[trigger] t[m]));
        lemma_drop_leading_ws_skip(t, i - 1);
        assert(t.skip(i - 1) =~= s.skip(i));
    }
}

/// When the characters of `s` past position `j` are all whitespace and
/// either `s` is exhausted below zero or the character at `j` is not
/// whitespace, dropping the trailing whitespace keeps exactly the first
/// `j + 1` characters.
proof fn lemma_drop_trailing_ws_take(s: Seq<char>, j: int)
    requires
        -1 <= j < s.len(),
        forall|m: int| j < m < s.len() ==> spec_is_whitespace(#[trigger] s[m]),
        j == -1 || !spec_is_whitespace(s[j]),
    ensures
        spec_drop_trailing_ws(s) == s.take(j + 1),
    decreases s.len() - j,
{
    if j == s.len() - 1 {
        if s.len() > 0 {
            assert(!spec_is_whitespace(s.last()));
        }
        assert(spec_drop_trailing_ws(s) == s);
        assert(s.take(j + 1) =~= s);
    } else {
        assert(spec_is_whitespace(s.last()));
        let t = s.drop_last();
        assert(forall|m: int| j < m < t.len() ==> spec_is_whitespace(#[trigger] t[m]));
        lemma_drop_trailing_ws_take(t, j);
        assert(t.take(j + 1) =~= s.take(j + 1));
    }
}

/// When the first `k` characters of `s` are not whitespace and either the
/// string ends there or whitespace follows, the first word is exactly
/// those `k` characters.
proof fn lemma_first_word_take(s: Seq<char>, k: int)
    requires
        0 <= k <= s.len(),
        forall|m: int| 0 <= m < k ==> !spec_is_whitespace(#[trigger] s[m]),
        k == s.len() || spec_is_whitespace(s[k]),
    ensures
        spec_first_word(s) == s.take(k),
    decreases k,
{
    if k == 0 {
        assert(spec_first_word(s) == Seq::<char>::empty());
        assert(s.take(0) =~= Seq::<char>::empty());
    } else {
        assert(!spec_is_whitespace(s[0]));
        let t = s.drop_first();
        assert(forall|m: int| 0 <= m < k - 1 ==> !spec_is_whitespace(#[trigger] t[m]));
        lemma_first_word_take(t, k - 1);
        assert(seq![s[0]] + t.take(k - 1) =~= s.take(k));
    }
}

/// Splits a command line into its first word and the rest: leading and
/// trailing whitespace is dropped, the first run of non-whitespace
/// characters is the command, and the remainder (with the separating
/// whitespace removed) is the argument text.
pub fn split_first_word(s: &str) -> (r: (&str, &str))
    ensures
        r.0@ == spec_first_word(spec_trim(s@)),
        r.1@ == spec_drop_leading_ws(spec_trim(s@).skip(spec_first_word(spec_trim(s@)).len() as int)),
{
    let n = s.unicode_len();

    // Scan past the leading whitespace.
    let mut start: usize = 0;
    while start < n && is_whitespace_char(s.get_char(start))
        invariant
            start <= n,
            n == s@.len(),
            forall|m: int| 0 <= m < start ==> spec_is_whitespace(#[trigger] s@[m]),
        decreases n - start,
    {
        start += 1;
    }
    proof {
        lemma_drop_leading_ws_skip(s@, start as int);
    }

    if start == n {
        // Nothing but whitespace: both halves are empty.
        proof {
            reveal_strlit("");
            assert(s@.skip(n as int) =~= Seq::<char>::empty());
            assert(spec_drop_trailing_ws(Seq::<char>::empty()) == Seq::<char>::empty());
            assert(spec_first_word(Seq::<char>::empty()) == Seq::<char>::empty());
            assert(Seq::<char>::empty().skip(0) =~= Seq::<char>::empty());
            assert(""@ =~= Seq::<char>::empty());
        }
        return ("", "");
    }

    // Scan back over the trailing whitespace; `s[start]` bounds the scan.
    let mut end: usize = n - 1;
    while is_whitespace_char(s.get_char(end))
        invariant
            start <= end < n,
            n == s@.len(),
            !spec_is_whitespace(s@[start as int]),
            forall|m: int| end < m < n ==> spec_is_whitespace(#[trigger] s@[m]),
        decreases end,
    {
        end -= 1;
    }
    let ghost trimmed = spec_trim(s@);
    proof {
        let t = s@.skip(start as int);
        assert(forall|m: int| end - start < m < t.len() ==> spec_is_whitespace(#[trigger] t[m]));
        assert(!spec_is_whitespace(t[end - start as int]));
        lemma_drop_trailing_ws_take(t, end - start as int);
        assert(trimmed =~= s@.subrange(start as int, end + 1 as int));
    }

    // Find where the first word ends.
    let mut k: usize = start;
    while k <= end && !is_whitespace_char(s.get_char(k))
        invariant
            start <= k <= end + 1,
            end < n == s@.len(),
            forall|m: int| start <= m < k ==> !spec_is_whitespace(#[trigger] s@[m]),
        decreases end + 1 - k,
    {
        k += 1;
    }
    proof {
        assert(forall|m: int| 0 <= m < k - start ==> !spec_is_whitespace(#[trigger] trimmed[m]));
        if k <= end {
            assert(trimmed[k - start as int] == s@[k as int]);
        }
        lemma_first_word_take(trimmed, k - start as int);
        assert(trimmed.take(k - start as int) =~= s@.subrange(start as int, k as int));
    }
    let word = s.substring_char(start, k);

    // Skip the whitespace between the word and the rest; `end + 1` bounds
    // the scan because `s[end]` is not whitespace.
    let mut k2: usize = k;
    while k2 <= end && is_whitespace_char(s.get_char(k2))
        invariant
            k <= k2 <= end + 1,
            end < n == s@.len(),
            !spec_is_whitespace(s@[end as int]),
            forall|m: int| k <= m < k2 ==> spec_is_whitespace(#[trigger] s@[m]),
        decreases end + 1 - k2,
    {
        k2 += 1;
    }
    let rest = s.substring_char(k2, end + 1);
    proof {
        let tail = trimmed.skip(k - start as int);
        assert(tail =~= s@.subrange(k as int, end + 1 as int));
        assert(forall|m: int| 0 <= m < k2 - k ==> spec_is_whitespace(#[trigger] tail[m]));
        if k2 <= end {
            assert(!spec_is_whitespace(tail[k2 - k as int]));
        }
        lemma_drop_leading_ws_skip(tail, k2 - k as int);
        assert(tail.skip(k2 - k as int) =~= s@.subrange(k2 as int, end + 1 as int));
    }
    (word, rest)
}

/// The hexadecimal digit for a value below sixteen; a blank otherwise.
pub open spec fn spec_hex_char(n: int) -> char {
    if n < 10 {
        spec_digit_char(n)
    } else if n == 10 { 'a' }
    else if n == 11 { 'b' }
    else if n == 12 { 'c' }
    else if n == 13 { 'd' }
    else if n == 14 { 'e' }
    else if n == 15 { 'f' }
    else { ' ' }
}

fn hex_char(n: u32) -> (c: char)
    ensures
        c == spec_hex_char(n as int),
{
    match n {
        0 => '0',
        1 => '1',
        2 => '2',
        3 => '3',
        4 => '4',
        5 => '5',
        6 => '6',
        7 => '7',
        8 => '8',
        9 => '9',
        10 => 'a',
        11 => 'b',
        12 => 'c',
        13 => 'd',
        14 => 'e',
        15 => 'f',
        _ => ' ',
    }
}

/// How one character is written inside a JSON string literal: quote,
/// backslash and the common control characters get their two-character
/// escapes, any other control character a `\u00XX` escape, and everything
/// else stands for itself.
pub open spec fn spec_json_escape_char(c: char) -> Seq<char> {
    if c == '"' {
        seq!['\\', '"']
    } else if c == '\\' {
        seq!['\\', '\\']
    } else if c == '\n' {
        seq!['\\', 'n']
    } else if c == '\r' {
        seq!['\\', 'r']
    } else if c == '\t' {
        seq!['\\', 't']
    } else if (c as u32) < 0x20 {
        seq!['\\', 'u', '0', '0', spec_hex_char((c as u32) as int / 16), spec_hex_char(
            (c as u32) as int % 16,
        )]
    } else {
        seq![c]
    }
}

/// The body of a JSON string literal holding `s`: every character escaped
/// as JSON requires.
pub open spec fn spec_json_escape(s: Seq<char>) -> Seq<char>
    decreases s.len(),
{
    if s.len() == 0 {
        Seq::empty()
    } else {
        spec_json_escape(s.drop_last()) + spec_json_escape_char(s.last())
    }
}

/// Appends `s` to `out`, escaped for use inside a JSON string literal.
fn append_json_escaped(out: &mut String, s: &str)
    ensures
        final(out)@ == old(out)@ + spec_json_escape(s@),
{
    let n = s.unicode_len();
    let mut i: usize = 0;
    while i < n
        invariant
            i <= n,
            n == s@.len(),
            out@ == old(out)@ + spec_json_escape(s@.subrange(0, i as int)),
        decreases n - i,
    {
        let c = s.get_char(i);
        if c == '"' {
            push_char(out, '\\');
            push_char(out, '"');
        } else if c == '\\' {
            push_char(out, '\\');
            push_char(out, '\\');
        } else if c == '\n' {
            push_char(out, '\\');
            push_char(out, 'n');
        } else if c == '\r' {
            push_char(out, '\\');
            push_char(out, 'r');
        } else if c == '\t' {
            push_char(out, '\\');
            push_char(out, 't');
        } else if (c as u32) < 0x20 {
            let v = c as u32;
            push_char(out, '\\');
            push_char(out, 'u');
            push_char(out, '0');
            push_char(out, '0');
            push_char(out, hex_char(v / 16));
            push_char(out, hex_char(v % 16));
        } else {
            push_char(out, c);
        }
        proof {
            let pre = s@.subrange(0, i as int);
            let cur = s@.subrange(0, i + 1 as int);
            assert(cur.drop_last() =~= pre);
            assert(cur.last() == s@[i as int]);
            assert(out@ =~= old(out)@ + spec_json_escape(cur));
        }
        i += 1;
    }
    proof {
        assert(s@.subrange(0, n as int) =~= s@);
    }
}

/// The JSON-RPC request that asks a conductor to call one zome function:
/// protocol version, request id, the fixed `call` method, and the target
/// instance, zome and function, with the already-encoded call parameters
/// embedded as they are.
pub open spec fn spec_rpc_call_body(
    instance: Seq<char>,
    zome: Seq<char>,
    func: Seq<char>,
    params: Seq<char>,
) -> Seq<char> {
    "{\"jsonrpc\":\"2.0\",\"id\":0,\"method\":\"call\",\"params\":{\"instance_id\":\""@
        + spec_json_escape(instance) + "\",\"zome\":\""@ + spec_json_escape(zome)
        + "\",\"function\":\""@ + spec_json_escape(func) + "\",\"params\":"@ + params + "}}"@
}

/// Frames one JSON-RPC call request. `params` must already be JSON text;
/// it is embedded verbatim, while the three names are escaped.
pub fn rpc_call_body(instance: &str, zome: &str, func: &str, params: &str) -> (r: String)
    ensures
        r@ == spec_rpc_call_body(instance@, zome@, func@, params@),
{
    let mut out = String::new();
    out.append("{\"jsonrpc\":\"2.0\",\"id\":0,\"method\":\"call\",\"params\":{\"instance_id\":\"");
    append_json_escaped(&mut out, instance);
    out.append("\",\"zome\":\"");
    append_json_escaped(&mut out, zome);
    out.append("\",\"function\":\"");
    append_json_escaped(&mut out, func);
    out.append("\",\"params\":");
    out.append(params);
    out.append("}}");
    assert(out@ =~= spec_rpc_call_body(instance@, zome@, func@, params@));
    out
}

/// The JSON parameters of a "create a new game" call against `opponent`.
pub open spec fn spec_new_game_params(opponent: Seq<char>) -> Seq<char> {
    "{\"opponent\":\""@ + spec_json_escape(opponent) + "\",\"timestamp\":0}"@
}

/// Builds the parameters of a "create a new game" call.
pub fn new_game_params(opponent: &str) -> (r: String)
    ensures
        r@ == spec_new_game_params(opponent@),
{
    let mut out = String::new();
    out.append("{\"opponent\":\"");
    append_json_escaped(&mut out, opponent);
    out.append("\",\"timestamp\":0}");
    assert(out@ =~= spec_new_game_params(opponent@));
    out
}

/// The JSON parameters of a "make a move" call: the game address and the
/// move text as the player typed it.
pub open spec fn spec_make_move_params(game: Seq<char>, move_type: Seq<char>) -> Seq<char> {
    "{\"game_move\":{\"game\":\""@ + spec_json_escape(game) + "\",\"move_type\":\""@
        + spec_json_escape(move_type) + "\",\"timestamp\":0}}"@
}

/// Builds the parameters of a "make a move" call.
pub fn make_move_params(game: &str, move_type: &str) -> (r: String)
    ensures
        r@ == spec_make_move_params(game@, move_type@),
{
    let mut out = String::new();
    out.append("{\"game_move\":{\"game\":\"");
    append_json_escaped(&mut out, game);
    out.append("\",\"move_type\":\"");
    append_json_escaped(&mut out, move_type);
    out.append("\",\"timestamp\":0}}");
    assert(out@ =~= spec_make_move_params(game@, move_type@));
    out
}

/// Whether a string has the shape of a content address: exactly 46
/// characters, beginning with `Qm`.
pub fn is_hash(s: &str) -> (r: bool)
    ensures
        r == (s@.len() == 46 && s@[0] == 'Q' && s@[1] == 'm'),
{
    let n = s.unicode_len();
    n == 46 && s.get_char(0) == 'Q' && s.get_char(1) == 'm'
}

} // verus!
