//! The loopback redirect: which URIs and ports it uses, and what the request that
//! arrives there says.

use vstd::prelude::*;
use vstd::string::*;
use vstd::utf8::{decode_utf8, valid_utf8};

use crate::auth::error::{SignInError, SignInErrorView};
use crate::outside::bytes::{lossy_text, lossy_text_of};
use crate::text::{
    before_char, chars_of, decimal, find, lemma_before_char, lemma_before_space, same, skip_space,
    skip_word, split, split_once, text_between, to_decimal, trim_start, views, words,
};

verus! {

/// The loopback ports to bind, in order.
pub const LOOPBACK_PORTS: [u16; 4] = [53690, 53691, 53692, 53693];

/// The redirect URI to register. Identity Center requires the path
/// `/oauth/callback` and ignores a loopback port, so none is given.
pub fn redirect_uris() -> (result: Vec<String>)
    ensures
        views(result@) == seq!["http://127.0.0.1/oauth/callback"@],
{
    let mut out: Vec<String> = Vec::new();
    out.push("http://127.0.0.1/oauth/callback".to_owned());
    assert(views(out@) =~= seq!["http://127.0.0.1/oauth/callback"@]);
    out
}

/// The redirect URI for a bound port.
pub open spec fn bound_uri(port: u16) -> Seq<char> {
    "http://127.0.0.1:"@ + decimal(port as nat) + "/oauth/callback"@
}

/// The redirect URI for a bound port.
pub fn redirect_uri(port: u16) -> (result: String)
    ensures
        result@ == bound_uri(port),
{
    let mut out = "http://127.0.0.1:".to_owned();
    out.push_str(to_decimal(port as u64).as_str());
    out.push_str("/oauth/callback");
    out
}

// ---------------------------------------------------------------------------
// Binding
// ---------------------------------------------------------------------------

/// Binding a port: the next one to try.
#[derive(Debug)]
pub struct BindTurn {
    next: usize,
}

/// Where binding stands.
#[derive(Debug)]
pub enum BindStep {
    /// Try to bind this turn's port.
    Try(BindTurn),
    /// A port is bound; the redirect goes to this URI.
    Bound(String),
    /// Every port was taken.
    Failed(SignInError),
}

/// A [`BindStep`] as a mathematical value: the index of the port to try, or the end.
#[verifier::ext_equal]
pub enum BindStepView {
    Try { next: int },
    Bound { uri: Seq<char> },
    Failed(SignInErrorView),
}

impl View for BindStep {
    type V = BindStepView;

    open spec fn view(&self) -> BindStepView {
        match self {
            BindStep::Try(turn) => BindStepView::Try { next: turn.index() },
            BindStep::Bound(uri) => BindStepView::Bound { uri: uri@ },
            BindStep::Failed(e) => BindStepView::Failed(e@),
        }
    }
}

impl BindTurn {
    /// Which of the ports is tried.
    pub closed spec fn index(&self) -> int {
        self.next as int
    }

    #[verifier::type_invariant]
    spec fn inv(&self) -> bool {
        self.next < LOOPBACK_PORTS@.len()
    }

    /// The port to try.
    pub fn port(&self) -> (result: u16)
        ensures
            0 <= self.index() < LOOPBACK_PORTS@.len(),
            result == LOOPBACK_PORTS@[self.index()],
    {
        proof {
            use_type_invariant(self);
        }
        LOOPBACK_PORTS[self.next]
    }

    /// Go on after the attempt: a bound port ends it, a taken one goes to the next.
    pub fn resume(self, bound: bool) -> (result: BindStep)
        ensures
            result@ == after_bind(self.index(), bound),
    {
        proof {
            use_type_invariant(&self);
        }
        if bound {
            BindStep::Bound(redirect_uri(LOOPBACK_PORTS[self.next]))
        } else if self.next + 1 < LOOPBACK_PORTS.len() {
            BindStep::Try(BindTurn { next: self.next + 1 })
        } else {
            BindStep::Failed(SignInError::NoLoopbackPort)
        }
    }
}

/// The step after the port at `index` was bound, or was found taken.
pub open spec fn after_bind(index: int, bound: bool) -> BindStepView {
    if bound {
        BindStepView::Bound { uri: bound_uri(LOOPBACK_PORTS@[index]) }
    } else if index + 1 < LOOPBACK_PORTS@.len() {
        BindStepView::Try { next: index + 1 }
    } else {
        BindStepView::Failed(SignInErrorView::NoLoopbackPort)
    }
}

/// Where binding ends that goes on from `step`, when just the ports in `free` can be
/// bound.
pub open spec fn bind_end(step: BindStepView, free: Set<u16>) -> BindStepView
    decreases
        (if step is Try {
            LOOPBACK_PORTS@.len() - step->next
        } else {
            0
        }),
{
    match step {
        BindStepView::Try { next } => if 0 <= next < LOOPBACK_PORTS@.len() {
            bind_end(after_bind(next, free.contains(LOOPBACK_PORTS@[next])), free)
        } else {
            step
        },
        _ => step,
    }
}

/// The port at `i` is free, and none that is tried before it.
pub open spec fn is_first_free(i: int, free: Set<u16>) -> bool {
    &&& 0 <= i < LOOPBACK_PORTS@.len()
    &&& free.contains(LOOPBACK_PORTS@[i])
    &&& forall|j: int| 0 <= j < i ==> !free.contains(#[trigger] LOOPBACK_PORTS@[j])
}

/// `end` is the URI of the first port that is free, or the failure that there is none.
pub open spec fn ends_at_first_free(end: BindStepView, free: Set<u16>) -> bool {
    match end {
        BindStepView::Try { .. } => false,
        BindStepView::Bound { uri } => exists|i: int| #[trigger]
            is_first_free(i, free) && uri == bound_uri(LOOPBACK_PORTS@[i]),
        BindStepView::Failed(e) => e == SignInErrorView::NoLoopbackPort && forall|j: int|
            0 <= j < LOOPBACK_PORTS@.len() ==> !free.contains(#[trigger] LOOPBACK_PORTS@[j]),
    }
}

proof fn lemma_bind_end(next: int, free: Set<u16>)
    requires
        0 <= next < LOOPBACK_PORTS@.len(),
        forall|j: int| 0 <= j < next ==> !free.contains(#[trigger] LOOPBACK_PORTS@[j]),
    ensures
        ends_at_first_free(bind_end(BindStepView::Try { next }, free), free),
    decreases LOOPBACK_PORTS@.len() - next,
{
    reveal_with_fuel(bind_end, 2);
    if free.contains(LOOPBACK_PORTS@[next]) {
        assert(is_first_free(next, free));
    } else if next + 1 < LOOPBACK_PORTS@.len() {
        lemma_bind_end(next + 1, free);
    }
}

/// Begin binding, with the first port. Whichever ports are free, binding that goes on
/// from here ends with the first of them, and fails exactly where there is none.
pub fn bind_first_free() -> (result: BindStep)
    ensures
        result@ == (BindStepView::Try { next: 0 }),
        forall|free: Set<u16>| ends_at_first_free(#[trigger] bind_end(result@, free), free),
{
    proof {
        assert forall|free: Set<u16>|
            ends_at_first_free(
                #[trigger] bind_end(BindStepView::Try { next: 0 }, free),
                free,
            ) by {
            lemma_bind_end(0, free);
        }
    }
    BindStep::Try(BindTurn { next: 0 })
}

// ---------------------------------------------------------------------------
// The request
// ---------------------------------------------------------------------------

/// The first line of `s`, without its line ending.
pub open spec fn first_line(s: Seq<char>) -> Seq<char> {
    let n = before_char(s, '\n');
    if 0 < n < s.len() && s[n - 1] == '\r' {
        s.take(n - 1)
    } else {
        s.take(n)
    }
}

/// The request target of an HTTP request: the second word of its first line.
pub open spec fn request_target(s: Seq<char>) -> Option<Seq<char>> {
    let w = words(first_line(s));
    if w.len() > 1 {
        Some(w[1])
    } else {
        None
    }
}

/// The request target (such as `/callback?code=...`) of a request's first line.
pub fn first_request_target<'a>(req: &'a str) -> (result: Option<&'a str>)
    ensures
        match result {
            Some(target) => request_target(req@) == Some(target@),
            None => request_target(req@) is None,
        },
{
    let chars = chars_of(req);
    let mut end: usize = find(&chars, 0, '\n');
    proof {
        assert(req@.skip(0) =~= req@);
        lemma_before_char(req@, '\n');
    }
    if 0 < end && end < chars.len() && chars[end - 1] == '\r' {
        end = end - 1;
    }
    let line = chars_of(text_between(&chars, 0, end).as_str());
    let ghost l = line@;
    assert(l =~= first_line(req@));
    assert(l.skip(0) =~= l);
    let from0 = skip_space(&line, 0);
    if from0 >= line.len() {
        assert(words(l).len() == 0);
        return None;
    }
    let to0 = skip_word(&line, from0);
    let from1 = skip_space(&line, to0);
    proof {
        let t = l.skip(from0 as int);
        lemma_before_space(t);
        assert(t.skip(to0 - from0) =~= l.skip(to0 as int));
        assert(words(l) == seq![t.take(to0 - from0)] + words(l.skip(to0 as int)));
    }
    if from1 >= line.len() {
        assert(words(l.skip(to0 as int)).len() == 0);
        return None;
    }
    let to1 = skip_word(&line, from1);
    proof {
        let t = l.skip(from1 as int);
        lemma_before_space(t);
        assert(words(l.skip(to0 as int)) == seq![t.take(to1 - from1)] + words(t.skip(to1 - from1)));
        assert(words(l)[1] == t.take(to1 - from1));
        assert(t.take(to1 - from1) =~= req@.subrange(from1 as int, to1 as int));
    }
    Some(req.substring_char(from1, to1))
}

/// The query of a redirect request: what follows the first `?` of its target, or
/// nothing where there is no `?`.
pub open spec fn request_query(s: Seq<char>) -> Option<Seq<char>> {
    match request_target(s) {
        None => None,
        Some(target) => match split_once(target, '?') {
            Some((_, query)) => Some(query),
            None => Some(Seq::empty()),
        },
    }
}

/// This is the outcome of a redirect request: its query, or a network error where the
/// request has no target.
pub open spec fn is_query_of(result: Result<String, SignInError>, req: Seq<char>) -> bool {
    match request_query(req) {
        Some(query) => result is Ok && result->Ok_0@ == query,
        None => result == Err::<String, SignInError>(SignInError::Network),
    }
}

/// The query of a redirect request. A request without a target is a network error.
pub fn redirect_query(req: &str) -> (result: Result<String, SignInError>)
    ensures
        is_query_of(result, req@),
{
    match first_request_target(req) {
        None => Err(SignInError::Network),
        Some(target) => {
            let chars = chars_of(target);
            let at = find(&chars, 0, '?');
            assert(target@.skip(0) =~= target@);
            if at >= chars.len() {
                return Ok(String::new());
            }
            let query = text_between(&chars, at + 1, chars.len());
            assert(query@ =~= target@.skip(at + 1));
            Ok(query)
        },
    }
}

/// The query of a redirect request as it came off the socket. Bytes that are UTF-8 are
/// taken for the text they encode.
pub fn redirect_query_of(bytes: &[u8]) -> (result: Result<String, SignInError>)
    ensures
        is_query_of(result, lossy_text_of(bytes@)),
        valid_utf8(bytes@) ==> is_query_of(result, decode_utf8(bytes@)),
{
    redirect_query(lossy_text(bytes).as_str())
}

/// The page shown once the redirect has arrived.
pub open spec fn complete_page() -> Seq<char> {
    "<html><body>Sign-in complete. You can close this tab.</body></html>"@
}

/// The HTTP response to the redirect.
pub fn redirect_response() -> (result: String)
    ensures
        result@ == "HTTP/1.1 200 OK\r\nContent-Type: text/html\r\nContent-Length: "@ + decimal(
            complete_page().len(),
        ) + "\r\nConnection: close\r\n\r\n"@ + complete_page(),
{
    let body = "<html><body>Sign-in complete. You can close this tab.</body></html>";
    proof {
        reveal_strlit("<html><body>Sign-in complete. You can close this tab.</body></html>");
        vstd::utf8::is_ascii_chars_encode_utf8(body@);
    }
    let mut out =
        "HTTP/1.1 200 OK\r\nContent-Type: text/html\r\nContent-Length: ".to_owned();
    out.push_str(to_decimal(body.len() as u64).as_str());
    out.push_str("\r\nConnection: close\r\n\r\n");
    out.push_str(body);
    out
}

// ---------------------------------------------------------------------------
// The query
// ---------------------------------------------------------------------------

/// `c` is a hexadecimal digit of either case.
pub open spec fn is_hex(c: char) -> bool {
    ('0' <= c <= '9') || ('a' <= c <= 'f') || ('A' <= c <= 'F')
}

/// The value of a hexadecimal digit.
pub open spec fn hex_value(c: char) -> int {
    if '0' <= c <= '9' {
        c as int - '0' as int
    } else if 'a' <= c <= 'f' {
        c as int - 'a' as int + 10
    } else {
        c as int - 'A' as int + 10
    }
}

/// The byte that one or two hexadecimal digits denote.
pub open spec fn hex_byte(h: Seq<char>) -> Option<int> {
    if h.len() == 1 && is_hex(h[0]) {
        Some(hex_value(h[0]))
    } else if h.len() == 2 && is_hex(h[0]) && is_hex(h[1]) {
        Some(hex_value(h[0]) * 16 + hex_value(h[1]))
    } else {
        None
    }
}

/// How many characters an escape that begins `s` takes: the `%` and up to two more.
pub open spec fn escape_len(s: Seq<char>) -> int {
    if s.len() < 3 {
        s.len() as int
    } else {
        3
    }
}

/// `s` with each `%` escape replaced by the character of the byte it denotes. An
/// escape that denotes none stays as it is.
pub open spec fn unescaped(s: Seq<char>) -> Seq<char>
    decreases s.len(),
{
    if s.len() == 0 {
        s
    } else if s[0] == '%' {
        let n = escape_len(s);
        let here = match hex_byte(s.subrange(1, n)) {
            Some(b) => seq![b as char],
            None => s.take(n),
        };
        here + unescaped(s.skip(n))
    } else {
        seq![s[0]] + unescaped(s.skip(1))
    }
}

/// `s` with a space for each `+`.
pub open spec fn plus_as_space(s: Seq<char>) -> Seq<char> {
    s.map_values(
        |c: char|
            if c == '+' {
                ' '
            } else {
                c
            },
    )
}

/// A query value as it was before it was put into a query.
pub open spec fn percent_decoded(s: Seq<char>) -> Seq<char> {
    unescaped(plus_as_space(s))
}

fn hex_digit(c: char) -> (result: Option<u8>)
    ensures
        match result {
            Some(v) => is_hex(c) && v as int == hex_value(c) && v < 16,
            None => !is_hex(c),
        },
{
    if '0' <= c && c <= '9' {
        Some(c as u8 - '0' as u8)
    } else if 'a' <= c && c <= 'f' {
        Some(c as u8 - 'a' as u8 + 10)
    } else if 'A' <= c && c <= 'F' {
        Some(c as u8 - 'A' as u8 + 10)
    } else {
        None
    }
}

/// The byte that the hexadecimal digits from `from` up to `to` denote.
fn parse_hex(chars: &Vec<char>, from: usize, to: usize) -> (result: Option<u8>)
    requires
        from <= to <= chars@.len(),
        to - from <= 2,
    ensures
        match result {
            Some(b) => hex_byte(chars@.subrange(from as int, to as int)) == Some(b as int),
            None => hex_byte(chars@.subrange(from as int, to as int)) is None,
        },
{
    let ghost h = chars@.subrange(from as int, to as int);
    if to - from == 1 {
        assert(h[0] == chars@[from as int]);
        hex_digit(chars[from])
    } else if to - from == 2 {
        assert(h[0] == chars@[from as int]);
        assert(h[1] == chars@[from + 1]);
        match (hex_digit(chars[from]), hex_digit(chars[from + 1])) {
            (Some(a), Some(b)) => Some(a * 16 + b),
            _ => None,
        }
    } else {
        None
    }
}

/// Decode a query value: `+` is a space, and `%XX` is the character of that byte.
pub fn percent_decode(s: &str) -> (result: String)
    ensures
        result@ == percent_decoded(s@),
{
    let raw = chars_of(s);
    let mut chars: Vec<char> = Vec::new();
    let mut k: usize = 0;
    while k < raw.len()
        invariant
            k <= raw@.len(),
            raw@ == s@,
            chars@.len() == k,
            forall|j: int| 0 <= j < k ==> #[trigger] chars@[j] == plus_as_space(s@)[j],
        decreases raw@.len() - k,
    {
        chars.push(
            if raw[k] == '+' {
                ' '
            } else {
                raw[k]
            },
        );
        k = k + 1;
    }
    let ghost all = plus_as_space(s@);
    assert(chars@ =~= all);
    let mut out = String::new();
    let mut i: usize = 0;
    assert(all.skip(0) =~= all);
    assert(out@ + unescaped(all) =~= unescaped(all));
    while i < chars.len()
        invariant
            i <= chars@.len(),
            chars@ == all,
            unescaped(all) == out@ + unescaped(all.skip(i as int)),
        decreases chars@.len() - i,
    {
        let ghost rest = all.skip(i as int);
        if chars[i] == '%' {
            let end: usize = if chars.len() - i < 3 {
                chars.len()
            } else {
                i + 3
            };
            let ghost n = end - i;
            proof {
                assert(escape_len(rest) == n);
                assert(rest.subrange(1, n) =~= all.subrange(i + 1, end as int));
                assert(rest.skip(n) =~= all.skip(end as int));
                assert(rest.take(n) =~= all.subrange(i as int, end as int));
            }
            match parse_hex(&chars, i + 1, end) {
                Some(b) => {
                    proof {
                        assert(out@ + (seq![b as char] + unescaped(all.skip(end as int))) =~= out@.push(
                            b as char,
                        ) + unescaped(all.skip(end as int)));
                    }
                    out.push(b as char);
                },
                None => {
                    let kept = text_between(&chars, i, end);
                    proof {
                        assert(out@ + (kept@ + unescaped(all.skip(end as int))) =~= (out@ + kept@)
                            + unescaped(all.skip(end as int)));
                    }
                    out.push_str(kept.as_str());
                },
            }
            i = end;
        } else {
            proof {
                assert(rest.skip(1) =~= all.skip(i + 1));
                assert(out@ + (seq![rest[0]] + unescaped(all.skip(i + 1))) =~= out@.push(rest[0])
                    + unescaped(all.skip(i + 1)));
            }
            out.push(chars[i]);
            i = i + 1;
        }
    }
    proof {
        assert(all.skip(i as int) =~= Seq::<char>::empty());
        assert(out@ + Seq::<char>::empty() =~= out@);
    }
    out
}

/// The value of the first `k=v` pair whose key is `key`.
pub open spec fn param_in(pairs: Seq<Seq<char>>, key: Seq<char>) -> Option<Seq<char>>
    decreases pairs.len(),
{
    if pairs.len() == 0 {
        None
    } else {
        match split_once(pairs[0], '=') {
            Some((k, v)) => if k == key {
                Some(percent_decoded(v))
            } else {
                param_in(pairs.skip(1), key)
            },
            None => param_in(pairs.skip(1), key),
        }
    }
}

/// The value of the first `k=v` pair of a query whose key is `key`, decoded.
pub open spec fn param(query: Seq<char>, key: Seq<char>) -> Option<Seq<char>> {
    param_in(split(query, '&'), key)
}

/// Pull one parameter's value out of a `k=v&k2=v2` query.
pub fn query_param(query: &str, key: &str) -> (result: Option<String>)
    ensures
        match result {
            Some(value) => param(query@, key@) == Some(value@),
            None => param(query@, key@) is None,
        },
{
    let chars = chars_of(query);
    let ghost q = query@;
    let mut i: usize = 0;
    assert(q.skip(0) =~= q);
    loop
        invariant
            i <= chars@.len(),
            chars@ == q,
            param(query@, key@) == param_in(split(q.skip(i as int), '&'), key@),
        decreases chars@.len() + 1 - i,
    {
        let end = find(&chars, i, '&');
        let pair = chars_of(text_between(&chars, i, end).as_str());
        let ghost rest = q.skip(i as int);
        let ghost pairs = split(rest, '&');
        proof {
            lemma_before_char(rest, '&');
            assert(pair@ =~= pairs[0]);
            if end < chars@.len() {
                assert(rest.skip(end - i + 1) =~= q.skip(end + 1));
                assert(pairs.skip(1) =~= split(q.skip(end + 1), '&'));
            } else {
                assert(pairs.skip(1) =~= Seq::<Seq<char>>::empty());
                assert(param_in(pairs.skip(1), key@) is None);
            }
        }
        let at = find(&pair, 0, '=');
        assert(pair@.skip(0) =~= pair@);
        if at < pair.len() {
            let name = text_between(&pair, 0, at);
            assert(name@ =~= pair@.take(at as int));
            if same(name.as_str(), key) {
                let value = text_between(&pair, at + 1, pair.len());
                assert(value@ =~= pair@.skip(at + 1));
                return Some(percent_decode(value.as_str()));
            }
        }
        if end >= chars.len() {
            return None;
        }
        i = end + 1;
    }
}

} // verus!
