//! Sign-in with Google: checking the callback against the CSRF cookie.
use vstd::prelude::*;
use vstd::string::*;
use crate::auth::{lemma_uuid_text_plain, uuid_text};
use crate::cookies::{cookie_value, extract_cookie, extracted_cookie, google_csrf_cookie_text, header_text, law_cookie_read_back, law_cookie_read_back_after, law_google_csrf_cookie_read_back, law_google_csrf_set_cookie_pair, set_cookie_pair};
use crate::error::AppError;
use crate::session::header_view;
use crate::text::is_space;

verus! {

/// The query of Google's redirect back to the server.
pub struct CallbackParams {
    pub code: String,
    pub state: String,
}

/// Whether a Google callback with this `Cookie` header and `state` passes the CSRF check:
/// the header's `google_csrf` cookie is the state.
pub open spec fn google_callback_passes(cookie_header: Option<Seq<u8>>, state: Seq<char>) -> bool {
    extracted_cookie(cookie_header, "google_csrf"@) == Some(state)
}

/// Checks Google's callback: the `google_csrf` cookie must be there, and the `state` Google
/// hands back must equal it.
pub fn check_google_callback(cookie_header: Option<&[u8]>, params: &CallbackParams) -> (r: Result<
    (),
    AppError,
>)
    ensures
        r is Ok <==> google_callback_passes(header_view(cookie_header), params.state@),
        match extracted_cookie(header_view(cookie_header), "google_csrf"@) {
            None => r matches Err(AppError::BadRequest(m)) && m@ == "Missing CSRF cookie"@,
            Some(stored) => if stored == params.state@ {
                r is Ok
            } else {
                r matches Err(AppError::Unauthorized(m)) && m@ == "CSRF token mismatch"@
            },
        },
{
    let stored = match extract_cookie(cookie_header, "google_csrf") {
        None => return Err(AppError::BadRequest(String::from_str("Missing CSRF cookie"))),
        Some(s) => s,
    };
    if params.state != stored {
        return Err(AppError::Unauthorized(String::from_str("CSRF token mismatch")));
    }
    Ok(())
}


/// The CSRF token that Google sign-in starts with (a UUID's text) comes back from the
/// `google_csrf` cookie it sets, and from a `Cookie` header that sends that cookie, first or
/// after other cookies (`; ` apart) that are not `google_csrf`: so a callback whose `state`
/// is that token passes the check.
pub proof fn law_google_csrf_round_trip(v: u128, before: Seq<char>, rest: Seq<char>)
    requires
        rest.len() > 0 ==> rest[0] == ';',
        cookie_value(before, "google_csrf"@) is None,
    ensures
        cookie_value(google_csrf_cookie_text(uuid_text(v)), "google_csrf"@) == Some(uuid_text(v)),
        cookie_value("google_csrf"@ + seq!['='] + uuid_text(v) + rest, "google_csrf"@) == Some(uuid_text(v)),
        cookie_value(before + seq![';', ' '] + "google_csrf"@ + seq!['='] + uuid_text(v) + rest, "google_csrf"@)
            == Some(uuid_text(v)),
{
    lemma_uuid_text_plain(v);
    assert(!is_space(uuid_text(v).last())) by {
        assert(uuid_text(v).last() == uuid_text(v)[35]);
    }
    law_google_csrf_cookie_read_back(uuid_text(v));
    reveal_strlit("google_csrf");
    assert(!("google_csrf"@).contains(';')) by {
        assert forall|k: int| 0 <= k < ("google_csrf"@).len() implies ("google_csrf"@)[k] != ';' by {}
    }
    law_cookie_read_back("google_csrf"@, uuid_text(v), rest);
    assert(is_space(' '));
    law_cookie_read_back_after(before, seq![' '], "google_csrf"@, uuid_text(v), rest);
    assert(before + seq![';', ' '] + "google_csrf"@ + seq!['='] + uuid_text(v) + rest =~= before
        + seq![';'] + seq![' '] + "google_csrf"@ + seq!['='] + uuid_text(v) + rest);
}

/// Google sign-in round trip: sign-in starts with the text of a random UUID as CSRF token,
/// puts it in the `state` of the sign-in URL and sets the `google_csrf` cookie to it. When
/// the browser sends that cookie back (first, or after other cookies, `; ` apart, none of
/// them `google_csrf`) and Google hands the same state back, the callback passes the check.
pub proof fn law_google_sign_in_round_trip(v: u128, before: Seq<char>, rest: Seq<char>, header: Seq<u8>)
    requires
        rest.len() > 0 ==> rest[0] == ';',
        before.len() > 0 ==> cookie_value(before, "google_csrf"@) is None,
        header_text(header) == Some(
            if before.len() == 0 {
                set_cookie_pair(google_csrf_cookie_text(uuid_text(v))) + rest
            } else {
                before + seq![';', ' '] + set_cookie_pair(google_csrf_cookie_text(uuid_text(v))) + rest
            },
        ),
    ensures
        set_cookie_pair(google_csrf_cookie_text(uuid_text(v))) == "google_csrf="@ + uuid_text(v),
        google_callback_passes(Some(header), uuid_text(v)),
{
    lemma_uuid_text_plain(v);
    law_google_csrf_set_cookie_pair(uuid_text(v));
    law_google_csrf_round_trip(v, before, rest);
    reveal_strlit("google_csrf=");
    reveal_strlit("google_csrf");
    let t = uuid_text(v);
    assert("google_csrf="@ + t + rest =~= "google_csrf"@ + seq!['='] + t + rest);
    assert(before + seq![';', ' '] + ("google_csrf="@ + t) + rest =~= before + seq![';', ' ']
        + "google_csrf"@ + seq!['='] + t + rest);
}

} // verus!
