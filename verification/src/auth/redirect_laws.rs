//! What a redirect request says, and what a Sign-in makes of it.

use vstd::prelude::*;

use crate::auth::authenticator::{
    after_listen, after_open, after_redirect, after_register, authorize_query, authorize_url_of,
    escaped, escaped_byte, urlencoded, SignInStepView,
};
use crate::auth::error::{SignInError, SignInErrorView};
use crate::auth::loopback::{
    after_bind, bind_end, bound_uri, first_line, is_query_of, param, param_in, percent_decoded, plus_as_space,
    request_query, request_target, unescaped, BindStepView, LOOPBACK_PORTS,
};
use crate::auth::pkce::{all_unreserved, challenge_of};
use crate::auth::sign_in_laws::{advance, fits, is_run, run, SignInReplyView};
use crate::auth::types::SsoTokenView;
use crate::auth::wire::ClientRegistrationView;
use crate::outside::digest::{base64url, sha256_of};
use crate::text::{before_char, is_space, lemma_before_char, split, words};
use crate::text_laws::{
    a_separator_parts_a_text, a_text_is_cut_at_its_first_separator,
    a_text_without_white_space_is_one_word, sep_free, space_free, white_space_parts_words,
};
use vstd::utf8::encode_utf8;

verus! {

// ---------------------------------------------------------------------------
// The request
// ---------------------------------------------------------------------------

/// `tail` cannot lengthen the word before it: it is empty, or begins with a blank or a
/// line end.
pub open spec fn ends_a_word(tail: Seq<char>) -> bool {
    tail.len() == 0 || tail[0] == ' ' || tail[0] == '\r' || tail[0] == '\n'
}

/// The target of a request is what stands behind its method: the second word of its first
/// line, whatever follows.
pub proof fn a_request_names_its_target(
    method: Seq<char>,
    target: Seq<char>,
    tail: Seq<char>,
)
    requires
        method.len() > 0,
        space_free(method),
        target.len() > 0,
        space_free(target),
        ends_a_word(tail),
    ensures
        request_target(method + seq![' '] + target + tail) == Some(target),
{
    let s = method + seq![' '] + target + tail;
    let head = method + seq![' '] + target;
    let k = head.len() as int;
    lemma_before_char(s, '\n');
    let n = before_char(s, '\n');
    assert(n >= k) by {
        if n < k {
            assert(s[n] == head[n]);
            if n < method.len() {
                assert(head[n] == method[n]);
            } else if n > method.len() {
                assert(head[n] == target[n - method.len() - 1]);
            }
        }
    }
    let line = first_line(s);
    assert(s[k - 1] == target[target.len() - 1]);
    assert(line.len() >= k);
    let u = line.skip(k);
    assert(line =~= method + seq![' '] + (target + u));
    white_space_parts_words(method, ' ', target + u);
    a_text_without_white_space_is_one_word(method);
    a_text_without_white_space_is_one_word(target);
    if u.len() == 0 {
        assert(target + u =~= target);
    } else {
        assert(u[0] == s[k]);
        assert(s[k] == tail[0]);
        assert(target + u =~= target + seq![u[0]] + u.skip(1));
        white_space_parts_words(target, u[0], u.skip(1));
    }
    assert(words(target + u)[0] == target);
    assert(words(line) == seq![method] + words(target + u));
    assert(words(line)[1] == target);
}

/// A request whose first line is one word names no target.
pub proof fn a_request_of_one_word_names_no_target(method: Seq<char>, more: Seq<char>)
    requires
        space_free(method),
    ensures
        request_target(method) is None,
        request_target(method + seq!['\n'] + more) is None,
        request_target(method + seq!['\r', '\n'] + more) is None,
{
    a_text_without_white_space_is_one_word(method);
    lemma_first_line(method, Seq::empty());
    lemma_first_line(method, seq!['\n'] + more);
    lemma_first_line(method, seq!['\r', '\n'] + more);
    assert(method + Seq::empty() =~= method);
    assert(method + (seq!['\n'] + more) =~= method + seq!['\n'] + more);
    assert(method + (seq!['\r', '\n'] + more) =~= method + seq!['\r', '\n'] + more);
}

proof fn lemma_first_line(line: Seq<char>, tail: Seq<char>)
    requires
        space_free(line),
        tail.len() == 0 || tail[0] == '\n' || (tail.len() > 1 && tail[0] == '\r' && tail[1]
            == '\n'),
    ensures
        first_line(line + tail) == line,
{
    let s = line + tail;
    let n = before_char(s, '\n');
    let k = line.len() as int;
    lemma_before_char(s, '\n');
    if n < k {
        assert(s[n] == line[n]);
    }
    if tail.len() > 0 && tail[0] == '\n' {
        assert(s[k] == '\n');
    }
    if tail.len() > 1 && tail[0] == '\r' {
        assert(s[k + 1] == '\n');
    }
    if k > 0 {
        assert(s[k - 1] == line[k - 1]);
    }
    assert(first_line(s) =~= line);
}

/// The query of a redirect is what follows the first `?` of its target, with any later `?`
/// in it; without a `?` it is empty.
pub proof fn a_query_follows_the_first_question_mark(
    method: Seq<char>,
    path: Seq<char>,
    query: Seq<char>,
    tail: Seq<char>,
)
    requires
        method.len() > 0,
        space_free(method),
        path.len() > 0,
        space_free(path),
        sep_free(path, '?'),
        space_free(query),
        ends_a_word(tail),
    ensures
        request_query(method + seq![' '] + (path + seq!['?'] + query) + tail) == Some(query),
        request_query(method + seq![' '] + path + tail) == Some(Seq::<char>::empty()),
{
    let target = path + seq!['?'] + query;
    assert(space_free(target)) by {
        assert forall|i: int| 0 <= i < target.len() implies !is_space(#[trigger] target[i]) by {
            if i < path.len() {
                assert(target[i] == path[i]);
            } else if i > path.len() {
                assert(target[i] == query[i - path.len() - 1]);
            }
        }
    }
    a_request_names_its_target(method, target, tail);
    a_request_names_its_target(method, path, tail);
    a_text_is_cut_at_its_first_separator(path, '?', query);
}

// ---------------------------------------------------------------------------
// Parameters
// ---------------------------------------------------------------------------

/// A parameter is read from the first pair that has its name: a pair with the name gives
/// the decoded text behind its first `=`, and any other pair is passed over, and so is one
/// without a `=`.
pub proof fn a_parameter_is_its_first_pair(
    name: Seq<char>,
    value: Seq<char>,
    rest: Seq<char>,
    key: Seq<char>,
)
    requires
        sep_free(name, '='),
        sep_free(name, '&'),
        sep_free(value, '&'),
    ensures
        param(name + seq!['='] + value, key) == (if name == key {
            Some(percent_decoded(value))
        } else {
            None
        }),
        param(name + seq!['='] + value + seq!['&'] + rest, key) == (if name == key {
            Some(percent_decoded(value))
        } else {
            param(rest, key)
        }),
        param(name, key) is None,
        param(name + seq!['&'] + rest, key) == param(rest, key),
{
    let pair = name + seq!['='] + value;
    assert(sep_free(pair, '&')) by {
        assert forall|i: int| 0 <= i < pair.len() implies #[trigger] pair[i] != '&' by {
            if i < name.len() {
                assert(pair[i] == name[i]);
            } else if i > name.len() {
                assert(pair[i] == value[i - name.len() - 1]);
            }
        }
    }
    a_text_is_cut_at_its_first_separator(name, '=', value);
    a_separator_parts_a_text(pair, '&', rest);
    a_separator_parts_a_text(name, '&', rest);
    assert((seq![pair] + split(rest, '&')).skip(1) =~= split(rest, '&'));
    assert((seq![name] + split(rest, '&')).skip(1) =~= split(rest, '&'));
    assert(seq![pair].skip(1) =~= Seq::<Seq<char>>::empty());
    assert(seq![name].skip(1) =~= Seq::<Seq<char>>::empty());
    assert(param_in(Seq::<Seq<char>>::empty(), key) is None);
}

/// The hexadecimal digits, by their values.
pub open spec fn hex_digits(upper: bool) -> Seq<char> {
    if upper {
        seq!['0', '1', '2', '3', '4', '5', '6', '7', '8', '9', 'A', 'B', 'C', 'D', 'E', 'F']
    } else {
        seq!['0', '1', '2', '3', '4', '5', '6', '7', '8', '9', 'a', 'b', 'c', 'd', 'e', 'f']
    }
}

/// An escape is replaced by the character of the byte its two digits denote, in either
/// case, and any other character stands for itself.
pub proof fn an_escape_is_its_byte(
    high: int,
    high_upper: bool,
    low: int,
    low_upper: bool,
    rest: Seq<char>,
    c: char,
)
    requires
        0 <= high < 16,
        0 <= low < 16,
        c != '%',
    ensures
        unescaped(
            seq!['%', hex_digits(high_upper)[high], hex_digits(low_upper)[low]] + rest,
        ) == seq![(16 * high + low) as char] + unescaped(rest),
        unescaped(seq![c] + rest) == seq![c] + unescaped(rest),
        unescaped(Seq::<char>::empty()) == Seq::<char>::empty(),
{
    let a = hex_digits(high_upper)[high];
    let b = hex_digits(low_upper)[low];
    let s = seq!['%', a, b] + rest;
    assert(s.subrange(1, 3) =~= seq![a, b]);
    assert(s.skip(3) =~= rest);
    assert((seq![c] + rest).skip(1) =~= rest);
}

/// `c` is a hexadecimal digit.
pub open spec fn is_hex_digit(c: char) -> bool {
    ('0' <= c <= '9') || ('a' <= c <= 'f') || ('A' <= c <= 'F')
}

/// An escape whose digits are none stays as it is.
pub proof fn a_broken_escape_stays(a: char, b: char, rest: Seq<char>)
    requires
        !(is_hex_digit(a) && is_hex_digit(b)),
    ensures
        unescaped(seq!['%', a, b] + rest) == seq!['%', a, b] + unescaped(rest),
{
    let s = seq!['%', a, b] + rest;
    assert(s.subrange(1, 3) =~= seq![a, b]);
    assert(s.skip(3) =~= rest);
    assert(s.take(3) =~= seq!['%', a, b]);
}

/// A `+` in a query value stands for a blank, and decoding is otherwise that of escapes.
pub proof fn a_plus_is_a_blank(s: Seq<char>)
    ensures
        plus_as_space(s).len() == s.len(),
        forall|i: int|
            0 <= i < s.len() ==> #[trigger] plus_as_space(s)[i] == (if s[i] == '+' {
                ' '
            } else {
                s[i]
            }),
        percent_decoded(s) == unescaped(plus_as_space(s)),
{
}

/// A character that a URL query holds as it is.
pub open spec fn is_plain(c: char) -> bool {
    ('A' <= c <= 'Z') || ('a' <= c <= 'z') || ('0' <= c <= '9') || c == '-' || c == '_' || c == '.'
        || c == '~'
}

/// Encoding goes byte by byte over the UTF-8 of a text: a letter, a digit and `-_.~` stand
/// for themselves, and any other byte becomes `%` and its two upper-case hexadecimal
/// digits.
pub proof fn encoding_goes_byte_by_byte(a: Seq<u8>, b: u8, s: Seq<char>)
    ensures
        urlencoded(s) == escaped(encode_utf8(s)),
        escaped(Seq::<u8>::empty()) == Seq::<char>::empty(),
        escaped(seq![b] + a) == (if is_plain(b as char) {
            seq![b as char]
        } else {
            seq!['%', hex_digits(true)[b as int / 16], hex_digits(true)[b as int % 16]]
        }) + escaped(a),
{
    assert((seq![b] + a).skip(1) =~= a);
    let all = seq![b] + a;
    assert(all[0] == b);
    assert(escaped_byte(b) =~= (if is_plain(b as char) {
        seq![b as char]
    } else {
        seq!['%', hex_digits(true)[b as int / 16], hex_digits(true)[b as int % 16]]
    }));
}

// ---------------------------------------------------------------------------
// The steps of a Sign-in
// ---------------------------------------------------------------------------

/// The ports that may be bound, in the order they are tried, and the URI of a bound one.
pub proof fn the_redirect_goes_to_the_bound_port(port: u16)
    ensures
        LOOPBACK_PORTS@ == seq![53690u16, 53691u16, 53692u16, 53693u16],
        bound_uri(port) == "http://127.0.0.1:"@ + crate::text::decimal(port as nat)
            + "/oauth/callback"@,
{
}

/// The challenge of a verifier is the base64url text of its SHA-256.
pub proof fn a_challenge_is_the_hash_of_its_verifier(verifier: Seq<char>)
    ensures
        challenge_of(verifier) == base64url(sha256_of(encode_utf8(verifier))),
{
}

/// The browser is sent to the endpoint of the registered client, with the query behind a
/// `?`: an authorization code is asked for, by the challenge and its method, for access to
/// the accounts.
pub proof fn the_browser_is_sent_to_the_endpoint(
    registration: ClientRegistrationView,
    redirect_uri: Seq<char>,
    verifier: Seq<char>,
    challenge: Seq<char>,
    nonce: Seq<char>,
)
    ensures
        ({
            let query = "response_type=code&client_id="@ + urlencoded(registration.client_id)
                + "&redirect_uri="@ + urlencoded(redirect_uri) + "&code_challenge="@ + urlencoded(
                challenge,
            ) + "&code_challenge_method=S256&state="@ + urlencoded(nonce)
                + "&scopes=sso:account:access"@;
            let open = after_listen(registration, redirect_uri, verifier, challenge, nonce);
            &&& open is Open
            &&& open->url == registration.authorization_endpoint + "?"@ + query
            &&& open->Open_registration == registration
            &&& open->Open_redirect_uri == redirect_uri
            &&& open->Open_verifier == verifier
            &&& open->Open_nonce == nonce
            &&& authorize_query(registration.client_id, redirect_uri, challenge, nonce) == query
            &&& authorize_url_of(registration, redirect_uri, challenge, nonce) == open->url
        }),
{
}

/// What the redirect decides: a nonce other than the one sent, or none, ends the Sign-in,
/// whatever code comes with it; with the nonce, a code is exchanged for the same client,
/// redirect URI and verifier, and without one the Sign-in fails at the token endpoint.
pub proof fn a_redirect_decides_the_sign_in(turn: SignInStepView, query: Seq<char>)
    requires
        turn is Redirect,
        turn->Redirect_nonce.len() > 0,
    ensures
        ({
            let next = after_redirect(turn, query);
            let echoed = param(query, "state"@) == Some(turn->Redirect_nonce);
            &&& !echoed ==> next == SignInStepView::Done(Err(SignInErrorView::StateMismatch))
            &&& echoed && param(query, "code"@) is None ==> next == SignInStepView::Done(
                Err(SignInErrorView::TokenEndpoint),
            )
            &&& echoed && param(query, "code"@) is Some ==> next == (SignInStepView::Exchange {
                registration: turn->Redirect_registration,
                redirect_uri: turn->Redirect_redirect_uri,
                verifier: turn->Redirect_verifier,
                code: param(query, "code"@)->0,
            })
        }),
{
}

/// A Sign-in registers, listens, opens the browser, waits for the redirect and exchanges,
/// in this order, and nothing that it holds changes on the way. A turn that fails ends it
/// with that error, and the token it gets is what it ends with.
pub proof fn a_sign_in_goes_step_by_step(
    issuer_url: Seq<char>,
    registration: ClientRegistrationView,
    open: SignInStepView,
    exchange: SignInStepView,
    redirect: SignInStepView,
    uri: Seq<char>,
    verifier: Seq<char>,
    nonce: Seq<char>,
    token: SsoTokenView,
    e: SignInErrorView,
)
    requires
        open is Open,
        exchange is Exchange,
        redirect is Redirect,
    ensures
        run(issuer_url, Seq::empty()) == (SignInStepView::Register { issuer_url }),
        after_register(Ok(registration)) == (SignInStepView::Listen { registration }),
        after_register(Err(e)) == SignInStepView::Done(Err(e)),
        advance(
            SignInStepView::Listen { registration },
            (SignInReplyView::Bound { reply: Err(e), verifier, nonce }),
        ) == SignInStepView::Done(Err(e)),
        after_open(open, Ok(())) == (SignInStepView::Redirect {
            registration: open->Open_registration,
            redirect_uri: open->Open_redirect_uri,
            verifier: open->Open_verifier,
            nonce: open->Open_nonce,
        }),
        after_open(open, Err(e)) == SignInStepView::Done(Err(e)),
        advance(redirect, SignInReplyView::Redirected(Err(e))) == SignInStepView::Done(Err(e)),
        advance(exchange, SignInReplyView::Exchanged(Ok(token))) == SignInStepView::Done(
            Ok(token),
        ),
        advance(exchange, SignInReplyView::Exchanged(Err(e))) == SignInStepView::Done(Err(e)),
{
}

/// A Sign-in succeeds only with the token of its exchange.
pub proof fn a_token_comes_from_the_exchange(
    issuer_url: Seq<char>,
    replies: Seq<SignInReplyView>,
    token: SsoTokenView,
)
    requires
        is_run(issuer_url, replies),
        run(issuer_url, replies) == SignInStepView::Done(Ok(token)),
    ensures
        replies.len() > 0,
        replies.last() == SignInReplyView::Exchanged(Ok(token)),
        run(issuer_url, replies.drop_last()) is Exchange,
{
    assert(fits(run(issuer_url, replies.drop_last()), replies.last()));
}

/// An escape that the text ends in: one digit denotes its value, and without a digit it
/// stays as it is.
pub proof fn an_escape_at_the_end(digit: int, upper: bool, c: char)
    requires
        0 <= digit < 16,
        !is_hex_digit(c),
    ensures
        unescaped(seq!['%', hex_digits(upper)[digit]]) == seq![digit as char],
        unescaped(seq!['%', c]) == seq!['%', c],
        unescaped(seq!['%']) == seq!['%'],
{
    let h = hex_digits(upper)[digit];
    let none = Seq::<char>::empty();
    assert(unescaped(none) =~= none);
    assert(seq!['%', h].subrange(1, 2) =~= seq![h]);
    assert(seq!['%', h].skip(2) =~= none);
    assert(seq![digit as char] + none =~= seq![digit as char]);
    assert(seq!['%', c].subrange(1, 2) =~= seq![c]);
    assert(seq!['%', c].skip(2) =~= none);
    assert(seq!['%', c].take(2) + none =~= seq!['%', c]);
    assert(seq!['%'].subrange(1, 1) =~= none);
    assert(seq!['%'].skip(1) =~= none);
    assert(seq!['%'].take(1) + none =~= seq!['%']);
}

/// A port that can be bound ends the search with its URI; one that is taken leads to the
/// next, and after the last there is none.
pub proof fn a_taken_port_leads_to_the_next(index: int)
    requires
        0 <= index < 4,
    ensures
        after_bind(index, true) == (BindStepView::Bound {
            uri: bound_uri(LOOPBACK_PORTS@[index]),
        }),
        index < 3 ==> after_bind(index, false) == (BindStepView::Try { next: index + 1 }),
        index == 3 ==> after_bind(index, false) == BindStepView::Failed(
            SignInErrorView::NoLoopbackPort,
        ),
{
}

/// A text needs no escape where it is of letters, digits and `-_.~` alone.
pub proof fn a_plain_text_needs_no_escape(s: Seq<char>)
    ensures
        all_unreserved(s) <==> forall|i: int| 0 <= i < s.len() ==> is_plain(#[trigger] s[i]),
{
    if all_unreserved(s) {
        assert forall|i: int| 0 <= i < s.len() implies is_plain(#[trigger] s[i]) by {
            assert(crate::auth::pkce::is_unreserved(s[i]));
        }
    }
    if forall|i: int| 0 <= i < s.len() ==> is_plain(#[trigger] s[i]) {
        assert forall|i: int| 0 <= i < s.len() implies crate::auth::pkce::is_unreserved(
            #[trigger] s[i],
        ) by {
            assert(is_plain(s[i]));
        }
    }
}

/// Binding from the port at `from` ends with the first one from there that is free, and
/// fails where none is.
pub proof fn the_first_free_port_is_bound(from: int, free: Set<u16>, i: int)
    requires
        0 <= from < 4,
    ensures
        from <= i < 4 && free.contains(LOOPBACK_PORTS@[i]) && (forall|j: int|
            from <= j < i ==> !free.contains(#[trigger] LOOPBACK_PORTS@[j])) ==> bind_end(
            BindStepView::Try { next: from },
            free,
        ) == (BindStepView::Bound { uri: bound_uri(LOOPBACK_PORTS@[i]) }),
        (forall|j: int| from <= j < 4 ==> !free.contains(#[trigger] LOOPBACK_PORTS@[j]))
            ==> bind_end(BindStepView::Try { next: from }, free) == BindStepView::Failed(
            SignInErrorView::NoLoopbackPort,
        ),
    decreases 4 - from,
{
    reveal_with_fuel(bind_end, 2);
    if !free.contains(LOOPBACK_PORTS@[from]) && from < 3 {
        the_first_free_port_is_bound(from + 1, free, i);
    }
}

/// A redirect request gives its query, and fails as a network error exactly where it names
/// no target.
pub proof fn a_redirect_gives_its_query(result: Result<String, SignInError>, req: Seq<char>)
    requires
        is_query_of(result, req),
    ensures
        result is Ok <==> request_target(req) is Some,
        result is Ok ==> request_query(req) == Some(result->Ok_0@),
        result is Err ==> result->Err_0 is Network,
{
}

/// The first line of a request ends at its first line end, which is not part of it, with or
/// without a carriage return; a request without one is its own first line.
pub proof fn a_first_line_ends_at_its_line_end(line: Seq<char>, more: Seq<char>)
    requires
        sep_free(line, '\n'),
    ensures
        first_line(line) == line,
        (line.len() == 0 || line.last() != '\r') ==> first_line(line + seq!['\n'] + more) == line,
        first_line(line + seq!['\r', '\n'] + more) == line,
{
    let k = line.len() as int;
    lemma_before_char(line, '\n');
    if before_char(line, '\n') < k {
        assert(line[before_char(line, '\n')] == '\n');
    }
    assert(first_line(line) =~= line);
    let a = line + seq!['\n'] + more;
    lemma_before_char(a, '\n');
    let n = before_char(a, '\n');
    if n < k {
        assert(a[n] == line[n]);
    }
    assert(a[k] == '\n');
    assert(n == k);
    if line.len() > 0 {
        assert(a[k - 1] == line.last());
    }
    assert(a.take(k) =~= line);
    let b = line + seq!['\r', '\n'] + more;
    lemma_before_char(b, '\n');
    let m = before_char(b, '\n');
    if m < k {
        assert(b[m] == line[m]);
    }
    assert(b[k] == '\r');
    assert(b[k + 1] == '\n');
    assert(m == k + 1);
    assert(b.take(k) =~= line);
}

/// The target is the second word of the first line, and there is none where that has no
/// second word.
pub proof fn a_target_is_the_second_word(s: Seq<char>)
    ensures
        words(first_line(s)).len() > 1 ==> request_target(s) == Some(words(first_line(s))[1]),
        words(first_line(s)).len() <= 1 ==> request_target(s) is None,
{
}

} // verus!
