//! What holds of every Sign-in: what the browser is sent with comes back, and a code
//! is used only behind a matching nonce.

use vstd::prelude::*;
use vstd::string::*;
use vstd::utf8::{encode_utf8, is_ascii_chars, is_ascii_chars_encode_utf8};

use crate::auth::authenticator::{
    after_listen, after_open, after_redirect, after_register, authorize_query, authorize_url_of,
    escaped, escaped_byte, upper_hex, urlencoded, SignInStepView,
};
use crate::auth::error::SignInErrorView;
use crate::auth::loopback::{
    escape_len, hex_byte, param, param_in, percent_decoded, plus_as_space, unescaped,
};
use crate::auth::pkce::{challenge_of, is_unreserved};
use crate::auth::types::SsoTokenView;
use crate::auth::wire::ClientRegistrationView;
use crate::text::{before_char, lemma_before_char, split, split_once};

verus! {

/// `s` holds no `sep`.
pub open spec fn free_of(s: Seq<char>, sep: char) -> bool {
    forall|i: int| 0 <= i < s.len() ==> #[trigger] s[i] != sep
}

proof fn lemma_escaped_byte(b: u8)
    requires
        b < 128,
    ensures
        escaped_byte(b).len() == 1 || escaped_byte(b).len() == 3,
        escaped_byte(b).len() == 1 ==> escaped_byte(b)[0] == b as char && b != '%' as u8,
        escaped_byte(b).len() == 3 ==> escaped_byte(b)[0] == '%' && hex_byte(
            escaped_byte(b).subrange(1, 3),
        ) == Some(b as int),
        free_of(escaped_byte(b), '+'),
        free_of(escaped_byte(b), '&'),
        free_of(escaped_byte(b), '='),
        free_of(escaped_byte(b), '?'),
{
    let e = escaped_byte(b);
    if !is_unreserved(b as char) {
        let h = e.subrange(1, 3);
        assert(h[0] == upper_hex(b as int / 16));
        assert(h[1] == upper_hex(b as int % 16));
    }
}

proof fn lemma_escaped_free(bytes: Seq<u8>, sep: char)
    requires
        forall|i: int| 0 <= i < bytes.len() ==> #[trigger] bytes[i] < 128,
        sep == '+' || sep == '&' || sep == '=' || sep == '?',
    ensures
        free_of(escaped(bytes), sep),
    decreases bytes.len(),
{
    if bytes.len() > 0 {
        assert(bytes[0] < 128);
        lemma_escaped_byte(bytes[0]);
        assert forall|i: int| 0 <= i < bytes.skip(1).len() implies #[trigger] bytes.skip(1)[i]
            < 128 by {
            assert(bytes.skip(1)[i] == bytes[i + 1]);
        }
        lemma_escaped_free(bytes.skip(1), sep);
        let e = escaped_byte(bytes[0]);
        let rest = escaped(bytes.skip(1));
        assert forall|i: int| 0 <= i < (e + rest).len() implies #[trigger] (e + rest)[i]
            != sep by {
            if i < e.len() {
                assert((e + rest)[i] == e[i]);
            } else {
                assert((e + rest)[i] == rest[i - e.len()]);
            }
        }
    }
}

proof fn lemma_unescaped(bytes: Seq<u8>)
    requires
        forall|i: int| 0 <= i < bytes.len() ==> #[trigger] bytes[i] < 128,
    ensures
        unescaped(escaped(bytes)) == bytes.map_values(|b: u8| b as char),
    decreases bytes.len(),
{
    let chars = bytes.map_values(|b: u8| b as char);
    if bytes.len() == 0 {
        assert(chars =~= Seq::<char>::empty());
    } else {
        let b = bytes[0];
        let rest = bytes.skip(1);
        assert(b < 128);
        lemma_escaped_byte(b);
        assert forall|i: int| 0 <= i < rest.len() implies #[trigger] rest[i] < 128 by {
            assert(rest[i] == bytes[i + 1]);
        }
        lemma_unescaped(rest);
        let e = escaped_byte(b);
        let all = escaped(bytes);
        assert(all == e + escaped(rest));
        assert(all[0] == e[0]);
        if e.len() == 1 {
            assert(all.skip(1) =~= escaped(rest));
            assert(unescaped(all) == seq![all[0]] + unescaped(escaped(rest)));
        } else {
            assert(escape_len(all) == 3);
            assert(all.subrange(1, 3) =~= e.subrange(1, 3));
            assert(all.skip(3) =~= escaped(rest));
            assert(unescaped(all) == seq![b as char] + unescaped(escaped(rest)));
        }
        assert(chars =~= seq![b as char] + rest.map_values(|b: u8| b as char));
    }
}

/// Decoding what [`urlencode`](crate::auth::authenticator::urlencode) made of an
/// ASCII text gives the text back.
pub proof fn decoding_undoes_encoding(s: Seq<char>)
    requires
        is_ascii_chars(s),
    ensures
        percent_decoded(urlencoded(s)) == s,
{
    let bytes = encode_utf8(s);
    lemma_ascii_bytes(s);
    lemma_escaped_free(bytes, '+');
    let e = escaped(bytes);
    assert(plus_as_space(e) =~= e);
    lemma_unescaped(bytes);
    assert(bytes.map_values(|b: u8| b as char) =~= s);
}

proof fn lemma_ascii_bytes(s: Seq<char>)
    requires
        is_ascii_chars(s),
    ensures
        encode_utf8(s).len() == s.len(),
        forall|i: int|
            0 <= i < s.len() ==> #[trigger] encode_utf8(s)[i] < 128 && encode_utf8(s)[i] as char
                == s[i],
{
    is_ascii_chars_encode_utf8(s);
    vstd::utf8::is_ascii_chars_nat_bound(s);
    assert forall|i: int| 0 <= i < s.len() implies #[trigger] encode_utf8(s)[i] < 128
        && encode_utf8(s)[i] as char == s[i] by {
        assert(s[i] as nat <= 127);
    }
}

proof fn lemma_before_char_at(a: Seq<char>, sep: char, b: Seq<char>)
    requires
        free_of(a, sep),
    ensures
        before_char(a + seq![sep] + b, sep) == a.len(),
{
    let all = a + seq![sep] + b;
    lemma_before_char(all, sep);
    let n = before_char(all, sep);
    if n < a.len() {
        assert(all[n] == a[n]);
    } else if n > a.len() {
        assert(all[a.len() as int] == sep);
    }
}

proof fn lemma_before_char_none(a: Seq<char>, sep: char)
    requires
        free_of(a, sep),
    ensures
        before_char(a, sep) == a.len(),
{
    lemma_before_char(a, sep);
}

/// A query that begins with a pair has that pair's value under its key, and under
/// any other key what the rest of it has.
proof fn lemma_param_first(
    key: Seq<char>,
    value: Seq<char>,
    rest: Seq<char>,
    wanted: Seq<char>,
)
    requires
        free_of(key, '&'),
        free_of(key, '='),
        free_of(value, '&'),
    ensures
        param(key + seq!['='] + value + seq!['&'] + rest, wanted) == (if key == wanted {
            Some(percent_decoded(value))
        } else {
            param(rest, wanted)
        }),
{
    let pair = key + seq!['='] + value;
    let query = pair + seq!['&'] + rest;
    assert(free_of(pair, '&')) by {
        assert forall|i: int| 0 <= i < pair.len() implies #[trigger] pair[i] != '&' by {
            if i < key.len() {
                assert(pair[i] == key[i]);
            } else if i > key.len() {
                assert(pair[i] == value[i - key.len() - 1]);
            }
        }
    }
    lemma_before_char_at(pair, '&', rest);
    assert(query.take(pair.len() as int) =~= pair);
    assert(query.skip(pair.len() as int + 1) =~= rest);
    let pairs = split(query, '&');
    assert(pairs == seq![pair] + split(rest, '&'));
    assert(pairs[0] == pair);
    assert(pairs.skip(1) =~= split(rest, '&'));
    lemma_before_char_at(key, '=', value);
    assert(pair.take(key.len() as int) =~= key);
    assert(pair.skip(key.len() as int + 1) =~= value);
    assert(split_once(pair, '=') == Some((key, value)));
}

/// A query of one pair.
proof fn lemma_param_only(key: Seq<char>, value: Seq<char>, wanted: Seq<char>)
    requires
        free_of(key, '&'),
        free_of(key, '='),
        free_of(value, '&'),
    ensures
        param(key + seq!['='] + value, wanted) == (if key == wanted {
            Some(percent_decoded(value))
        } else {
            None
        }),
{
    let pair = key + seq!['='] + value;
    assert(free_of(pair, '&')) by {
        assert forall|i: int| 0 <= i < pair.len() implies #[trigger] pair[i] != '&' by {
            if i < key.len() {
                assert(pair[i] == key[i]);
            } else if i > key.len() {
                assert(pair[i] == value[i - key.len() - 1]);
            }
        }
    }
    lemma_before_char_none(pair, '&');
    let pairs = split(pair, '&');
    assert(pairs =~= seq![pair]);
    assert(pairs.skip(1) =~= Seq::<Seq<char>>::empty());
    assert(param_in(pairs.skip(1), wanted) is None);
    lemma_before_char_at(key, '=', value);
    assert(pair.take(key.len() as int) =~= key);
    assert(pair.skip(key.len() as int + 1) =~= value);
}

/// The query of a redirect that brings `code` and echoes `nonce`.
pub open spec fn echo_query(code: Seq<char>, nonce: Seq<char>) -> Seq<char> {
    "code="@ + urlencoded(code) + "&state="@ + urlencoded(nonce)
}

proof fn lemma_urlencoded_free(s: Seq<char>, sep: char)
    requires
        is_ascii_chars(s),
        sep == '+' || sep == '&' || sep == '=' || sep == '?',
    ensures
        free_of(urlencoded(s), sep),
{
    lemma_ascii_bytes(s);
    lemma_escaped_free(encode_utf8(s), sep);
}

/// A redirect that echoes the nonce it was sent with gets its code exchanged.
pub proof fn an_echoed_nonce_is_accepted(
    turn: SignInStepView,
    code: Seq<char>,
)
    requires
        turn is Redirect,
        is_ascii_chars(turn->Redirect_nonce),
        is_ascii_chars(code),
    ensures
        after_redirect(turn, echo_query(code, turn->Redirect_nonce)) == (SignInStepView::Exchange {
            registration: turn->Redirect_registration,
            redirect_uri: turn->Redirect_redirect_uri,
            verifier: turn->Redirect_verifier,
            code,
        }),
{
    let nonce = turn->Redirect_nonce;
    let c = urlencoded(code);
    let n = urlencoded(nonce);
    lemma_urlencoded_free(code, '&');
    lemma_urlencoded_free(nonce, '&');
    decoding_undoes_encoding(code);
    decoding_undoes_encoding(nonce);
    reveal_strlit("code=");
    reveal_strlit("&state=");
    reveal_strlit("code");
    reveal_strlit("state");
    let rest = "state"@ + seq!['='] + n;
    assert(echo_query(code, nonce) =~= "code"@ + seq!['='] + c + seq!['&'] + rest);
    assert("code"@ != "state"@) by {
        assert("code"@.len() != "state"@.len());
    }
    lemma_param_first("code"@, c, rest, "state"@);
    lemma_param_first("code"@, c, rest, "code"@);
    lemma_param_only("state"@, n, "state"@);
}

/// A code is exchanged only where the redirect's nonce is the one that was sent;
/// any other redirect ends the Sign-in.
pub proof fn a_code_is_used_only_behind_its_nonce(turn: SignInStepView, query: Seq<char>)
    requires
        turn is Redirect,
    ensures
        after_redirect(turn, query) is Exchange ==> (match param(query, "state"@) {
            Some(nonce) => nonce,
            None => Seq::empty(),
        }) == turn->Redirect_nonce && param(query, "code"@) == Some(after_redirect(
            turn,
            query,
        )->code),
        param(query, "state"@) is Some && param(query, "state"@) != Some(turn->Redirect_nonce)
            ==> after_redirect(turn, query) == SignInStepView::Done(
            Err(SignInErrorView::StateMismatch),
        ),
        param(query, "state"@) is None && turn->Redirect_nonce.len() > 0 ==> after_redirect(
            turn,
            query,
        ) == SignInStepView::Done(Err(SignInErrorView::StateMismatch)),
{
}

// ---------------------------------------------------------------------------
// A whole Sign-in
// ---------------------------------------------------------------------------

/// The reply to one turn of a Sign-in. With a bound port come the verifier and the nonce
/// that were drawn.
pub enum SignInReplyView {
    Registered(Result<ClientRegistrationView, SignInErrorView>),
    Bound { reply: Result<Seq<char>, SignInErrorView>, verifier: Seq<char>, nonce: Seq<char> },
    Opened(Result<(), SignInErrorView>),
    Redirected(Result<Seq<char>, SignInErrorView>),
    Exchanged(Result<SsoTokenView, SignInErrorView>),
}

/// `step` waits for a reply of this kind.
pub open spec fn fits(step: SignInStepView, reply: SignInReplyView) -> bool {
    match reply {
        SignInReplyView::Registered(_) => step is Register,
        SignInReplyView::Bound { .. } => step is Listen,
        SignInReplyView::Opened(_) => step is Open,
        SignInReplyView::Redirected(_) => step is Redirect,
        SignInReplyView::Exchanged(_) => step is Exchange,
    }
}

/// The step after `reply`.
pub open spec fn advance(step: SignInStepView, reply: SignInReplyView) -> SignInStepView {
    match reply {
        SignInReplyView::Registered(r) => after_register(r),
        SignInReplyView::Bound { reply: Err(e), .. } => SignInStepView::Done(Err(e)),
        SignInReplyView::Bound { reply: Ok(uri), verifier, nonce } => after_listen(
            step->Listen_registration,
            uri,
            verifier,
            challenge_of(verifier),
            nonce,
        ),
        SignInReplyView::Opened(r) => after_open(step, r),
        SignInReplyView::Redirected(Err(e)) => SignInStepView::Done(Err(e)),
        SignInReplyView::Redirected(Ok(query)) => after_redirect(step, query),
        SignInReplyView::Exchanged(r) => SignInStepView::Done(r),
    }
}

/// The step a Sign-in has come to after these replies.
pub open spec fn run(issuer_url: Seq<char>, replies: Seq<SignInReplyView>) -> SignInStepView
    decreases replies.len(),
{
    if replies.len() == 0 {
        SignInStepView::Register { issuer_url }
    } else {
        advance(run(issuer_url, replies.drop_last()), replies.last())
    }
}

/// Each reply is of the kind the Sign-in waited for.
pub open spec fn is_run(issuer_url: Seq<char>, replies: Seq<SignInReplyView>) -> bool
    decreases replies.len(),
{
    replies.len() == 0 || {
        &&& is_run(issuer_url, replies.drop_last())
        &&& fits(run(issuer_url, replies.drop_last()), replies.last())
    }
}

/// The browser was opened with the challenge of `verifier` and with `nonce`, for this
/// client and redirect URI.
pub open spec fn opened_with(
    opened: SignInStepView,
    registration: ClientRegistrationView,
    redirect_uri: Seq<char>,
    verifier: Seq<char>,
    nonce: Seq<char>,
) -> bool {
    opened == (SignInStepView::Open {
        registration,
        redirect_uri,
        verifier,
        nonce,
        url: authorize_url_of(registration, redirect_uri, challenge_of(verifier), nonce),
    })
}

/// What a Sign-in on its way goes back to: the step that opened the browser.
spec fn traced(issuer_url: Seq<char>, replies: Seq<SignInReplyView>) -> bool {
    let opened = run(issuer_url, replies.take(2));
    match run(issuer_url, replies) {
        SignInStepView::Register { .. } => replies.len() == 0,
        SignInStepView::Listen { .. } => replies.len() == 1,
        SignInStepView::Open { registration, redirect_uri, verifier, nonce, .. } => {
            &&& replies.len() == 2
            &&& opened_with(opened, registration, redirect_uri, verifier, nonce)
        },
        SignInStepView::Redirect { registration, redirect_uri, verifier, nonce } => {
            &&& replies.len() == 3
            &&& opened_with(opened, registration, redirect_uri, verifier, nonce)
        },
        SignInStepView::Exchange { registration, redirect_uri, verifier, code } => {
            &&& replies.len() == 4
            &&& opened_with(opened, registration, redirect_uri, verifier, opened->Open_nonce)
            &&& replies[3] matches SignInReplyView::Redirected(Ok(query))
            &&& param(query, "code"@) == Some(code)
            &&& (match param(query, "state"@) {
                Some(nonce) => nonce,
                None => Seq::empty(),
            }) == opened->Open_nonce
        },
        SignInStepView::Done(_) => true,
    }
}

proof fn lemma_traced(issuer_url: Seq<char>, replies: Seq<SignInReplyView>)
    requires
        is_run(issuer_url, replies),
    ensures
        traced(issuer_url, replies),
    decreases replies.len(),
{
    if replies.len() > 0 {
        let before = replies.drop_last();
        lemma_traced(issuer_url, before);
        if replies.len() == 2 {
            assert(replies.take(2) =~= replies);
        } else if replies.len() > 2 {
            assert(replies.take(2) =~= before.take(2));
        }
    }
}

/// Over a whole Sign-in, the verifier that is exchanged is the one whose challenge the
/// browser was opened with, for the same client and redirect URI, and the code comes from
/// a redirect that echoed the nonce the browser was opened with.
pub proof fn the_exchanged_verifier_answers_the_challenge(
    issuer_url: Seq<char>,
    replies: Seq<SignInReplyView>,
)
    requires
        is_run(issuer_url, replies),
        run(issuer_url, replies) is Exchange,
    ensures
        replies.len() == 4,
        ({
            let opened = run(issuer_url, replies.take(2));
            let step = run(issuer_url, replies);
            &&& opened_with(
                opened,
                step->Exchange_registration,
                step->Exchange_redirect_uri,
                step->Exchange_verifier,
                opened->Open_nonce,
            )
            &&& replies[3] matches SignInReplyView::Redirected(Ok(query))
            &&& param(query, "code"@) == Some(step->code)
            &&& (match param(query, "state"@) {
                Some(nonce) => nonce,
                None => Seq::empty(),
            }) == opened->Open_nonce
        }),
{
    lemma_traced(issuer_url, replies);
}

/// What the browser is sent with can be read back out of the authorize query: the
/// client, the redirect URI, the challenge and the nonce.
#[verifier::rlimit(40)]
pub proof fn the_authorize_query_carries_its_parameters(
    client_id: Seq<char>,
    redirect_uri: Seq<char>,
    challenge: Seq<char>,
    nonce: Seq<char>,
)
    requires
        is_ascii_chars(client_id),
        is_ascii_chars(redirect_uri),
        is_ascii_chars(challenge),
        is_ascii_chars(nonce),
    ensures
        ({
            let query = authorize_query(client_id, redirect_uri, challenge, nonce);
            &&& param(query, "client_id"@) == Some(client_id)
            &&& param(query, "redirect_uri"@) == Some(redirect_uri)
            &&& param(query, "code_challenge"@) == Some(challenge)
            &&& param(query, "state"@) == Some(nonce)
        }),
{
    let query = authorize_query(client_id, redirect_uri, challenge, nonce);
    let i = urlencoded(client_id);
    let u = urlencoded(redirect_uri);
    let c = urlencoded(challenge);
    let n = urlencoded(nonce);
    lemma_urlencoded_free(client_id, '&');
    lemma_urlencoded_free(redirect_uri, '&');
    lemma_urlencoded_free(challenge, '&');
    lemma_urlencoded_free(nonce, '&');
    decoding_undoes_encoding(client_id);
    decoding_undoes_encoding(redirect_uri);
    decoding_undoes_encoding(challenge);
    decoding_undoes_encoding(nonce);
    reveal_strlit("response_type=code&client_id=");
    reveal_strlit("&redirect_uri=");
    reveal_strlit("&code_challenge=");
    reveal_strlit("&code_challenge_method=S256&state=");
    reveal_strlit("&scopes=sso:account:access");
    reveal_strlit("response_type");
    reveal_strlit("code");
    reveal_strlit("client_id");
    reveal_strlit("redirect_uri");
    reveal_strlit("code_challenge");
    reveal_strlit("code_challenge_method");
    reveal_strlit("S256");
    reveal_strlit("state");
    reveal_strlit("scopes=sso:account:access");
    let eq = seq!['='];
    let amp = seq!['&'];
    let q6 = "scopes=sso:account:access"@;
    let q5 = "state"@ + eq + n + amp + q6;
    let q4 = "code_challenge_method"@ + eq + "S256"@ + amp + q5;
    let q3 = "code_challenge"@ + eq + c + amp + q4;
    let q2 = "redirect_uri"@ + eq + u + amp + q3;
    let q1 = "client_id"@ + eq + i + amp + q2;
    let q0 = "response_type"@ + eq + "code"@ + amp + q1;
    assert("&scopes=sso:account:access"@ =~= amp + q6);
    assert("&code_challenge_method=S256&state="@ =~= amp + "code_challenge_method"@ + eq + "S256"@
        + amp + "state"@ + eq);
    assert("&code_challenge="@ =~= amp + "code_challenge"@ + eq);
    assert("&redirect_uri="@ =~= amp + "redirect_uri"@ + eq);
    assert("response_type=code&client_id="@ =~= "response_type"@ + eq + "code"@ + amp
        + "client_id"@ + eq);
    assert(query =~= q0);
    lemma_carries("client_id"@, i, u, c, n, q6);
    lemma_carries("redirect_uri"@, i, u, c, n, q6);
    lemma_carries("code_challenge"@, i, u, c, n, q6);
    lemma_carries("state"@, i, u, c, n, q6);
}

/// Looking `wanted` up pair by pair.
proof fn lemma_carries(
    wanted: Seq<char>,
    i: Seq<char>,
    u: Seq<char>,
    c: Seq<char>,
    n: Seq<char>,
    tail: Seq<char>,
)
    requires
        free_of(i, '&'),
        free_of(u, '&'),
        free_of(c, '&'),
        free_of(n, '&'),
        wanted == "client_id"@ || wanted == "redirect_uri"@ || wanted == "code_challenge"@
            || wanted == "state"@,
    ensures
        ({
            let eq = seq!['='];
            let amp = seq!['&'];
            let q5 = "state"@ + eq + n + amp + tail;
            let q4 = "code_challenge_method"@ + eq + "S256"@ + amp + q5;
            let q3 = "code_challenge"@ + eq + c + amp + q4;
            let q2 = "redirect_uri"@ + eq + u + amp + q3;
            let q1 = "client_id"@ + eq + i + amp + q2;
            let q0 = "response_type"@ + eq + "code"@ + amp + q1;
            param(q0, wanted) == Some(
                percent_decoded(
                    if wanted == "client_id"@ {
                        i
                    } else if wanted == "redirect_uri"@ {
                        u
                    } else if wanted == "code_challenge"@ {
                        c
                    } else {
                        n
                    },
                ),
            )
        }),
{
    reveal_strlit("response_type");
    reveal_strlit("code");
    reveal_strlit("client_id");
    reveal_strlit("redirect_uri");
    reveal_strlit("code_challenge");
    reveal_strlit("code_challenge_method");
    reveal_strlit("S256");
    reveal_strlit("state");
    assert("client_id"@.len() == 9 && "redirect_uri"@.len() == 12 && "code_challenge"@.len() == 14
        && "state"@.len() == 5 && "response_type"@.len() == 13 && "code_challenge_method"@.len()
        == 21);
    let eq = seq!['='];
    let amp = seq!['&'];
    let q5 = "state"@ + eq + n + amp + tail;
    let q4 = "code_challenge_method"@ + eq + "S256"@ + amp + q5;
    let q3 = "code_challenge"@ + eq + c + amp + q4;
    let q2 = "redirect_uri"@ + eq + u + amp + q3;
    let q1 = "client_id"@ + eq + i + amp + q2;
    lemma_param_first("response_type"@, "code"@, q1, wanted);
    lemma_param_first("client_id"@, i, q2, wanted);
    lemma_param_first("redirect_uri"@, u, q3, wanted);
    lemma_param_first("code_challenge"@, c, q4, wanted);
    lemma_param_first("code_challenge_method"@, "S256"@, q5, wanted);
    lemma_param_first("state"@, n, tail, wanted);
}

} // verus!
