//! Who a connection is: the identity that the relay reads from the
//! handshake, and the few decisions of the session pages.

use crate::text::{chars_of, decimal, decimal_text, join_text, text_of};
use vstd::prelude::*;
use vstd::utf8::{decode_utf8, valid_utf8};

verus! {

/// Whether `c` is white space (the Unicode property `White_Space`).
pub open spec fn is_space(c: char) -> bool {
    let u = c as u32;
    ||| 0x09 <= u <= 0x0D
    ||| u == 0x20
    ||| u == 0x85
    ||| u == 0xA0
    ||| u == 0x1680
    ||| 0x2000 <= u <= 0x200A
    ||| u == 0x2028
    ||| u == 0x2029
    ||| u == 0x202F
    ||| u == 0x205F
    ||| u == 0x3000
}

/// Tells whether `c` is white space.
pub fn is_space_char(c: char) -> (space: bool)
    ensures
        space == is_space(c),
{
    let u: u32 = c as u32;
    (0x09 <= u && u <= 0x0D) || u == 0x20 || u == 0x85 || u == 0xA0 || u == 0x1680 || (0x2000 <= u
        && u <= 0x200A) || u == 0x2028 || u == 0x2029 || u == 0x202F || u == 0x205F || u == 0x3000
}

/// `s` without the white space at its start.
pub open spec fn trim_start(s: Seq<char>) -> Seq<char>
    decreases s.len(),
{
    if s.len() > 0 && is_space(s[0]) {
        trim_start(s.drop_first())
    } else {
        s
    }
}

/// `s` without the white space at its end.
pub open spec fn trim_end(s: Seq<char>) -> Seq<char>
    decreases s.len(),
{
    if s.len() > 0 && is_space(s.last()) {
        trim_end(s.drop_last())
    } else {
        s
    }
}

/// `s` without the white space at either end.
pub open spec fn trim(s: Seq<char>) -> Seq<char> {
    trim_end(trim_start(s))
}

/// The position of the first `c` in `s`, or the length of `s` if it has
/// none.
pub open spec fn first_index(s: Seq<char>, c: char) -> int
    decreases s.len(),
{
    if s.len() == 0 {
        0
    } else if s[0] == c {
        0
    } else {
        1 + first_index(s.drop_first(), c)
    }
}

/// The pieces of `s` between the occurrences of `sep`, in order. A text
/// without `sep` is one piece, and so is the empty text.
pub open spec fn split_on(s: Seq<char>, sep: char) -> Seq<Seq<char>>
    decreases s.len(),
{
    let i = first_index(s, sep);
    if 0 <= i < s.len() {
        seq![s.take(i)] + split_on(s.skip(i + 1), sep)
    } else {
        seq![s]
    }
}

/// `e` is the place of the only `=` in `t`.
pub open spec fn sole_separator(t: Seq<char>, e: int) -> bool {
    &&& 0 <= e < t.len()
    &&& t[e] == '='
    &&& forall|j: int| 0 <= j < t.len() && j != e ==> t[j] != '='
}

/// The name and the value of a cookie written as `name=value`. A text with
/// no `=`, or with more than one, is no cookie.
pub open spec fn cookie_pair(t: Seq<char>) -> Option<(Seq<char>, Seq<char>)> {
    if exists|e: int| sole_separator(t, e) {
        let e = choose|e: int| sole_separator(t, e);
        Some((t.take(e), t.skip(e + 1)))
    } else {
        None
    }
}

/// The value that `segment`, white space at its ends aside, gives to the
/// cookie `name`.
pub open spec fn named_value(segment: Seq<char>, name: Seq<char>) -> Option<Seq<char>> {
    match cookie_pair(trim(segment)) {
        Some(pair) => if pair.0 == name {
            Some(pair.1)
        } else {
            None
        },
        None => None,
    }
}

/// `later` if it is there, else `earlier`.
pub open spec fn prefer(later: Option<Seq<char>>, earlier: Option<Seq<char>>) -> Option<
    Seq<char>,
> {
    if later is Some {
        later
    } else {
        earlier
    }
}

/// The value of the last segment that names the cookie `name`.
pub open spec fn last_named(segments: Seq<Seq<char>>, name: Seq<char>) -> Option<Seq<char>>
    decreases segments.len(),
{
    if segments.len() == 0 {
        None
    } else {
        prefer(last_named(segments.drop_first(), name), named_value(segments[0], name))
    }
}

/// The value of the cookie `name` in a `Cookie` header: the header is cut at
/// each `;`, and the last piece that reads `name=value` decides.
pub open spec fn cookie_value(header: Seq<char>, name: Seq<char>) -> Option<Seq<char>> {
    last_named(split_on(header, ';'), name)
}

proof fn lemma_first_index(s: Seq<char>, c: char)
    ensures
        0 <= first_index(s, c) <= s.len(),
        forall|j: int| 0 <= j < first_index(s, c) ==> s[j] != c,
        first_index(s, c) < s.len() ==> s[first_index(s, c)] == c,
    decreases s.len(),
{
    if s.len() > 0 && s[0] != c {
        let rest = s.drop_first();
        lemma_first_index(rest, c);
        assert forall|j: int| 0 <= j < first_index(s, c) implies s[j] != c by {
            if j > 0 {
                assert(s[j] == rest[j - 1]);
            }
        }
    }
}

/// A text whose first `c` stands at `i` has `i` as its first index.
proof fn lemma_first_index_is(s: Seq<char>, c: char, i: int)
    requires
        0 <= i <= s.len(),
        forall|j: int| 0 <= j < i ==> s[j] != c,
        i < s.len() ==> s[i] == c,
    ensures
        first_index(s, c) == i,
{
    lemma_first_index(s, c);
}

/// Trimming the window `[lo, hi)` of `chars`: the bounds of what is left.
fn trim_bounds(chars: &Vec<char>, lo: usize, hi: usize) -> (bounds: (usize, usize))
    requires
        lo <= hi <= chars.len(),
    ensures
        lo <= bounds.0 <= bounds.1 <= hi,
        chars@.subrange(bounds.0 as int, bounds.1 as int) == trim(
            chars@.subrange(lo as int, hi as int),
        ),
{
    let mut a: usize = lo;
    while a < hi && is_space_char(chars[a])
        invariant
            lo <= a <= hi <= chars.len(),
            trim_start(chars@.subrange(lo as int, hi as int)) == trim_start(
                chars@.subrange(a as int, hi as int),
            ),
        decreases hi - a,
    {
        assert(chars@.subrange(a as int, hi as int).drop_first() =~= chars@.subrange(
            a + 1,
            hi as int,
        ));
        a += 1;
    }
    let mut b: usize = hi;
    while a < b && is_space_char(chars[b - 1])
        invariant
            a <= b <= hi <= chars.len(),
            trim_end(chars@.subrange(a as int, hi as int)) == trim_end(
                chars@.subrange(a as int, b as int),
            ),
        decreases b - a,
    {
        assert(chars@.subrange(a as int, b as int).drop_last() =~= chars@.subrange(
            a as int,
            b - 1,
        ));
        b -= 1;
    }
    (a, b)
}

/// Tells whether the window `[lo, hi)` of `chars` spells `wanted`.
fn window_is(chars: &Vec<char>, lo: usize, hi: usize, wanted: &Vec<char>) -> (same: bool)
    requires
        lo <= hi <= chars.len(),
    ensures
        same == (chars@.subrange(lo as int, hi as int) == wanted@),
{
    if hi - lo != wanted.len() {
        return false;
    }
    let mut k: usize = 0;
    while k < wanted.len()
        invariant
            lo <= hi <= chars.len(),
            hi - lo == wanted.len(),
            k <= wanted.len(),
            forall|j: int| 0 <= j < k ==> chars[lo + j] == wanted[j],
        decreases wanted.len() - k,
    {
        if chars[lo + k] != wanted[k] {
            return false;
        }
        k += 1;
    }
    assert(chars@.subrange(lo as int, hi as int) =~= wanted@);
    true
}

/// The value that the segment `[lo, hi)` of the header gives to the cookie
/// `wanted`.
fn segment_value(
    header: &str,
    chars: &Vec<char>,
    lo: usize,
    hi: usize,
    wanted: &Vec<char>,
) -> (value: Option<String>)
    requires
        chars@ == header@,
        lo <= hi <= chars.len(),
    ensures
        text_of(value) == named_value(chars@.subrange(lo as int, hi as int), wanted@),
{
    let (a, b): (usize, usize) = trim_bounds(chars, lo, hi);
    let ghost t = chars@.subrange(a as int, b as int);
    let mut e: usize = a;
    while e < b && chars[e] != '='
        invariant
            a <= e <= b <= chars.len(),
            forall|j: int| a <= j < e ==> chars[j] != '=',
        decreases b - e,
    {
        e += 1;
    }
    if e == b {
        return None;
    }
    let mut k: usize = e + 1;
    while k < b && chars[k] != '='
        invariant
            e < k <= b <= chars.len(),
            forall|j: int| e < j < k ==> chars[j] != '=',
        decreases b - k,
    {
        k += 1;
    }
    if k < b {
        assert forall|x: int| !sole_separator(t, x) by {
            if sole_separator(t, x) {
                assert(t[e - a] == '=');
                assert(t[k - a] == '=');
            }
        }
        return None;
    }
    proof {
        assert(sole_separator(t, e - a));
        assert(t.take(e - a) =~= chars@.subrange(a as int, e as int));
    }
    if window_is(chars, a, e, wanted) {
        Some(header.substring_char(e + 1, b).to_owned())
    } else {
        None
    }
}

/// Reads the cookie `name` from the text of a `Cookie` header.
pub fn read_cookie(header: &str, name: &str) -> (value: Option<String>)
    ensures
        text_of(value) == cookie_value(header@, name@),
{
    let chars = chars_of(header);
    let wanted = chars_of(name);
    let n: usize = chars.len();
    let mut found: Option<String> = None;
    let ghost mut best: Option<Seq<char>> = None;
    let mut start: usize = 0;
    let mut i: usize = 0;
    assert(chars@.skip(0) =~= chars@);
    while i < n
        invariant
            chars@ == header@,
            wanted@ == name@,
            n == chars.len(),
            start <= i <= n,
            forall|j: int| start <= j < i ==> chars[j] != ';',
            best == text_of(found),
            cookie_value(header@, name@) == prefer(
                last_named(split_on(chars@.skip(start as int), ';'), name@),
                best,
            ),
        decreases n - i,
    {
        if chars[i] == ';' {
            let value = segment_value(header, &chars, start, i, &wanted);
            proof {
                let rest = chars@.skip(start as int);
                lemma_first_index_is(rest, ';', i - start);
                assert(rest.take(i - start) =~= chars@.subrange(start as int, i as int));
                assert(rest.skip(i - start + 1) =~= chars@.skip(i + 1));
                let pieces = split_on(rest, ';');
                assert(pieces.drop_first() =~= split_on(chars@.skip(i + 1), ';'));
                best = prefer(named_value(chars@.subrange(start as int, i as int), name@), best);
            }
            if value.is_some() {
                found = value;
            }
            start = i + 1;
        }
        i += 1;
    }
    let value = segment_value(header, &chars, start, n, &wanted);
    proof {
        let rest = chars@.skip(start as int);
        lemma_first_index_is(rest, ';', rest.len() as int);
        let pieces = split_on(rest, ';');
        assert(last_named(pieces.drop_first(), name@) is None);
    }
    if value.is_some() {
        found = value;
    }
    found
}

/// The identity of a participant: who, under which name, in which room.
#[derive(Debug, Clone, PartialEq, Eq)]
pub struct UserSession {
    pub user_id: String,
    pub nickname: String,
    pub room_id: String,
}

/// The mathematical value of a [`UserSession`].
pub struct SessionView {
    pub user_id: Seq<char>,
    pub nickname: Seq<char>,
    pub room_id: Seq<char>,
}

impl View for UserSession {
    type V = SessionView;

    open spec fn view(&self) -> SessionView {
        SessionView { user_id: self.user_id@, nickname: self.nickname@, room_id: self.room_id@ }
    }
}

/// The room that a connection to `path` asks for: what follows the leading
/// `/`, or `lobby` where the path names nothing.
pub open spec fn room_of_path(path: Seq<char>) -> Seq<char> {
    if path.len() > 1 && path[0] == '/' {
        path.skip(1)
    } else {
        "lobby"@
    }
}

/// The nickname of a connection that brings none.
pub open spec fn default_nickname(connection_id: u32) -> Seq<char> {
    "User-"@ + decimal_text(connection_id as nat)
}

/// What the bytes of a header spell in UTF-8. Bytes that are no UTF-8 spell
/// nothing.
pub open spec fn header_text(bytes: Seq<u8>) -> Option<Seq<char>> {
    if valid_utf8(bytes) {
        Some(decode_utf8(bytes))
    } else {
        None
    }
}

/// The text of an optional header.
pub open spec fn cookie_text(cookie_header: Option<&[u8]>) -> Option<Seq<char>> {
    match cookie_header {
        Some(bytes) => header_text(bytes@),
        None => None,
    }
}

/// Trusted: `std::str::from_utf8`. There is a text exactly if the bytes are
/// UTF-8, and the text is what they spell.
#[verifier::external_body]
fn utf8_text<'a>(bytes: &'a [u8]) -> (text: Option<&'a str>)
    ensures
        text is Some <==> valid_utf8(bytes@),
        text matches Some(s) ==> s@ == decode_utf8(bytes@),
{
    match std::str::from_utf8(bytes) {
        Ok(text) => Some(text),
        Err(_) => None,
    }
}

/// The value of the cookie `name`, if there is a header and it has one.
pub open spec fn header_cookie(cookie_header: Option<Seq<char>>, name: Seq<char>) -> Option<
    Seq<char>,
> {
    match cookie_header {
        Some(header) => cookie_value(header, name),
        None => None,
    }
}

/// The identity of a connection: `user_id` and `nickname` from the cookies
/// of those names in the text of the `Cookie` header, the room from the
/// path. A connection without a `user_id` cookie is `fallback_user_id`; one
/// without a `nickname` cookie is named after its number.
pub open spec fn resolved_session(
    connection_id: u32,
    path: Seq<char>,
    cookie_header: Option<Seq<char>>,
    fallback_user_id: Seq<char>,
) -> SessionView {
    SessionView {
        user_id: match header_cookie(cookie_header, "user_id"@) {
            Some(value) => value,
            None => fallback_user_id,
        },
        nickname: match header_cookie(cookie_header, "nickname"@) {
            Some(value) => value,
            None => default_nickname(connection_id),
        },
        room_id: room_of_path(path),
    }
}

/// The room named by the path of a connection.
pub fn path_room(path: &str) -> (room_id: String)
    ensures
        room_id@ == room_of_path(path@),
{
    let n: usize = path.unicode_len();
    if n > 1 && path.get_char(0) == '/' {
        let rest = path.substring_char(1, n);
        rest.to_owned()
    } else {
        "lobby".to_owned()
    }
}

/// Works out who a connection is. It never fails: what the handshake does
/// not say is filled in.
pub fn resolve(
    connection_id: u32,
    path: &str,
    cookie_header: Option<&[u8]>,
    fallback_user_id: String,
) -> (session: UserSession)
    ensures
        session@ == resolved_session(
            connection_id,
            path@,
            cookie_text(cookie_header),
            fallback_user_id@,
        ),
{
    let room_id = path_room(path);
    let header = match cookie_header {
        Some(bytes) => utf8_text(bytes),
        None => None,
    };
    let (user_cookie, nickname_cookie) = match header {
        Some(header) => (read_cookie(header, "user_id"), read_cookie(header, "nickname")),
        None => (None, None),
    };
    let user_id = match user_cookie {
        Some(value) => value,
        None => fallback_user_id,
    };
    let nickname = match nickname_cookie {
        Some(value) => value,
        None => {
            let number = decimal(connection_id);
            join_text("User-", number.as_str())
        },
    };
    UserSession { user_id, nickname, room_id }
}

} // verus!
