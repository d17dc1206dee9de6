//! Reading the credentials out of an `Authorization: Basic` header value.
use vstd::prelude::*;
use vstd::utf8::{encode_utf8, is_ascii_chars};

use crate::codec::{base64_decoded, decode_base64, decode_utf8_lossy, utf8_lossy_of, utf8_text};
use crate::error::Error;
use crate::text::{chars_of, find_char, first_index, is_first, lemma_first_index};
use vstd::string::StrSliceExecFns;

verus! {

broadcast use vstd::utf8::group_utf8_lib;

/// A username and password as a client sent them. The password is never
/// empty.
pub struct AuthData {
    pub user: String,
    pub password: String,
}

/// What a header value amounts to.
pub enum HeaderVerdict {
    TooShort,
    NotText,
    MissingScheme,
    UnsupportedScheme { scheme: Seq<char> },
    MalformedCredentials,
    NoPassword,
    EmptyPassword,
    Credentials { user: Seq<char>, password: Seq<char> },
}

/// A byte that an HTTP header value may hold as text: visible ASCII or tab.
pub open spec fn is_visible_ascii(b: u8) -> bool {
    (32 <= b && b < 127) || b == 9
}

/// The header's bytes read as characters, one per byte.
pub open spec fn header_text(h: Seq<u8>) -> Seq<char> {
    h.map_values(|b: u8| b as char)
}

/// The only scheme understood: `Basic`.
pub open spec fn basic_scheme() -> Seq<char> {
    seq!['B', 'a', 's', 'i', 'c']
}

/// What the credentials part of a header, once base64-decoded, amounts to:
/// `user:password`, split at the first colon.
pub open spec fn credentials_verdict(decoded: Seq<u8>) -> HeaderVerdict {
    let s = utf8_lossy_of(decoded);
    match first_index(s, ':') {
        None => HeaderVerdict::NoPassword,
        Some(c) => if c + 1 == s.len() {
            HeaderVerdict::EmptyPassword
        } else {
            HeaderVerdict::Credentials {
                user: s.subrange(0, c),
                password: s.subrange(c + 1, s.len() as int),
            }
        },
    }
}

/// What a present header value `h` amounts to: it must be at least 7 bytes,
/// be text, start with the scheme `Basic` and a space, and go on with the
/// base64 encoding of `user:password`, where the password is not empty.
pub open spec fn header_verdict(h: Seq<u8>) -> HeaderVerdict {
    let text = header_text(h);
    if h.len() < 7 {
        HeaderVerdict::TooShort
    } else if !(forall|i: int| 0 <= i < h.len() ==> is_visible_ascii(#[trigger] h[i])) {
        HeaderVerdict::NotText
    } else {
        match first_index(text, ' ') {
            None => HeaderVerdict::MissingScheme,
            Some(sp) => if text.subrange(0, sp) != basic_scheme() {
                HeaderVerdict::UnsupportedScheme { scheme: text.subrange(0, sp) }
            } else {
                match base64_decoded(h.subrange(sp + 1, h.len() as int)) {
                    None => HeaderVerdict::MalformedCredentials,
                    Some(decoded) => credentials_verdict(decoded),
                }
            },
        }
    }
}

/// `r` is what a parse that came to `v` returns.
pub open spec fn returns_verdict(r: Result<Option<AuthData>, Error>, v: HeaderVerdict) -> bool {
    match v {
        HeaderVerdict::TooShort => r matches Err(Error::HeaderNotLongEnough),
        HeaderVerdict::NotText => r matches Err(Error::CannotConvertHeaderToString),
        HeaderVerdict::MissingScheme => r matches Err(Error::MissingScheme),
        HeaderVerdict::UnsupportedScheme { scheme } => r matches Err(
            Error::UnsupportedScheme { scheme: s },
        ) && s@ == scheme,
        HeaderVerdict::MalformedCredentials => r matches Err(Error::MalformedCredentials),
        HeaderVerdict::NoPassword => r matches Err(Error::CannotExtractPassword),
        HeaderVerdict::EmptyPassword => r matches Err(Error::EmptyPassword),
        HeaderVerdict::Credentials { user, password } => r matches Ok(Some(d)) && d.user@ == user
            && d.password@ == password,
    }
}

impl AuthData {
    /// The credentials of an `Authorization` header value: `None` where no
    /// header was sent, the username and password where it holds well-formed
    /// Basic credentials, and the error that says what is wrong otherwise.
    pub fn from_header(header: Option<&[u8]>) -> (r: Result<Option<AuthData>, Error>)
        ensures
            header is None ==> r matches Ok(None),
            header matches Some(h) ==> returns_verdict(r, header_verdict(h@)),
    {
        let h = match header {
            None => {
                return Ok(None);
            },
            Some(h) => h,
        };
        if h.len() < 7 {
            return Err(Error::HeaderNotLongEnough);
        }
        let mut i: usize = 0;
        while i < h.len()
            invariant
                header == Some(h),
                h@.len() >= 7,
                i <= h@.len(),
                forall|j: int| 0 <= j < i ==> is_visible_ascii(#[trigger] h@[j]),
            decreases h@.len() - i,
        {
            if !((32 <= h[i] && h[i] < 127) || h[i] == 9) {
                return Err(Error::CannotConvertHeaderToString);
            }
            i = i + 1;
        }
        let ghost chars = header_text(h@);
        proof {
            assert(is_ascii_chars(chars));
            assert(encode_utf8(chars) =~= h@);
        }
        let text = match utf8_text(h) {
            Ok(text) => text,
            Err(_) => {
                return Err(Error::CannotConvertHeaderToString);
            },
        };
        let cs = chars_of(text);
        assert(cs@ == chars);
        let sp = match find_char(&cs, ' ', 0) {
            None => {
                return Err(Error::MissingScheme);
            },
            Some(sp) => sp,
        };
        proof {
            assert(is_first(chars, ' ', sp as int));
            lemma_first_index(chars, ' ', sp as int);
        }
        if !(sp == 5 && cs[0] == 'B' && cs[1] == 'a' && cs[2] == 's' && cs[3] == 'i' && cs[4]
            == 'c') {
            assert(chars.subrange(0, sp as int) != basic_scheme()) by {
                if chars.subrange(0, sp as int) == basic_scheme() {
                    assert(chars.subrange(0, sp as int).len() == 5);
                    assert(chars.subrange(0, sp as int)[0] == 'B');
                    assert(chars.subrange(0, sp as int)[1] == 'a');
                    assert(chars.subrange(0, sp as int)[2] == 's');
                    assert(chars.subrange(0, sp as int)[3] == 'i');
                    assert(chars.subrange(0, sp as int)[4] == 'c');
                }
            }
            let scheme = text.substring_char(0, sp).to_owned();
            return Err(Error::UnsupportedScheme { scheme });
        }
        assert(chars.subrange(0, sp as int) =~= basic_scheme());
        let rest = text.substring_char(sp + 1, cs.len());
        proof {
            let tail = chars.subrange(sp + 1, chars.len() as int);
            assert(rest@ == tail);
            assert(is_ascii_chars(tail));
            assert(encode_utf8(tail) =~= h@.subrange(sp + 1, h@.len() as int));
        }
        let decoded = match decode_base64(rest.as_bytes()) {
            Err(_) => {
                return Err(Error::MalformedCredentials);
            },
            Ok(decoded) => decoded,
        };
        let s = decode_utf8_lossy(decoded.as_slice());
        let sc = chars_of(s.as_str());
        let c = match find_char(&sc, ':', 0) {
            None => {
                proof {
                    if first_index(s@, ':') is Some {
                        let k = choose|k: int| is_first(s@, ':', k);
                        assert(s@[k] == ':');
                    }
                }
                return Err(Error::CannotExtractPassword);
            },
            Some(c) => c,
        };
        proof {
            assert(is_first(s@, ':', c as int));
            lemma_first_index(s@, ':', c as int);
        }
        if c == sc.len() - 1 {
            return Err(Error::EmptyPassword);
        }
        let user = s.as_str().substring_char(0, c).to_owned();
        let password = s.as_str().substring_char(c + 1, sc.len()).to_owned();
        Ok(Some(AuthData { user, password }))
    }
}

} // verus!
