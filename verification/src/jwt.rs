//! The secrets of the followers, and which of them a token is verified with.

use crate::text::joined;
use crate::types::has_prefix;
use vstd::prelude::*;
use vstd::string::StringExecFns;
use vstd::utf8::encode_utf8;

verus! {

/// `jwt::Error`: why a token could not be read or was not verified.
#[verifier::external_type_specification]
#[verifier::external_body]
pub struct ExJwtError(jwt::Error);

/// What a token claims.
#[derive(Debug, PartialEq, Eq)]
pub struct Claims {
    /// When the token was issued, in seconds since the UNIX epoch.
    pub iat: u64,
    /// The name of the consensus node, which names its secret too.
    pub id: Option<String>,
    /// The version of the consensus node.
    pub clv: Option<String>,
}

/// `jwt::Error` as its `Display` impl writes it. Nothing is claimed of the text.
#[verifier::external_body]
fn error_text(error: &jwt::Error) -> (text: String) {
    format!("{error}")
}

/// The message for a token that was not verified.
pub fn convert_err(e: jwt::Error) -> (message: String)
    ensures
        has_prefix(message@, "JWT verification error: "@),
{
    let detail = error_text(&e);
    let message = joined("JWT verification error: ", detail.as_str());
    assert(message@.subrange(0, "JWT verification error: "@.len() as int)
        =~= "JWT verification error: "@);
    message
}

/// The number that a hexadecimal digit stands for, in either case.
pub open spec fn hex_digit_value(digit: u8) -> Option<u8> {
    if 0x30 <= digit <= 0x39 {
        Some((digit - 0x30) as u8)
    } else if 0x61 <= digit <= 0x66 {
        Some((digit - 0x61 + 10) as u8)
    } else if 0x41 <= digit <= 0x46 {
        Some((digit - 0x41 + 10) as u8)
    } else {
        None
    }
}

/// An even number of hexadecimal digits.
pub open spec fn is_hex(text: Seq<u8>) -> bool {
    &&& text.len() % 2 == 0
    &&& forall|i: int| 0 <= i < text.len() ==> hex_digit_value(#[trigger] text[i]) is Some
}

/// The bytes that hexadecimal digits stand for, two digits to the byte.
pub open spec fn hex_decoded(text: Seq<u8>) -> Seq<u8> {
    Seq::new(
        text.len() / 2,
        |i: int|
            (hex_digit_value(text[2 * i]).unwrap() * 16 + hex_digit_value(
                text[2 * i + 1],
            ).unwrap()) as u8,
    )
}

/// `hex::decode`: the bytes that the text stands for, where the text is an
/// even number of hexadecimal digits, and an error where it is not. The error
/// is handed on as its `Debug` impl writes it; nothing is claimed of that text.
#[verifier::external_body]
fn hex_decode(text: &str) -> (r: Result<Vec<u8>, String>)
    ensures
        r is Ok <==> is_hex(encode_utf8(text@)),
        r matches Ok(bytes) ==> bytes@ == hex_decoded(encode_utf8(text@)),
{
    hex::decode(text).map_err(|e| format!("{e:?}"))
}

/// The secrets of the followers by their names, in the order in which they are tried.
pub struct KeyCollection {
    pub ids: Vec<String>,
    pub secrets: Vec<Vec<u8>>,
}

/// The names with their secrets.
pub type Keys = Seq<(Seq<char>, Seq<u8>)>;

/// The place of the first secret of the given name.
pub open spec fn named_at(keys: Keys, name: Seq<char>, i: int) -> bool {
    &&& 0 <= i < keys.len()
    &&& keys[i].0 == name
    &&& forall|j: int| 0 <= j < i ==> (#[trigger] keys[j]).0 != name
}

/// No secret has the given name.
pub open spec fn unnamed(keys: Keys, name: Seq<char>) -> bool {
    forall|j: int| 0 <= j < keys.len() ==> (#[trigger] keys[j]).0 != name
}

/// The keys with one more secret: it takes the place of the first secret of
/// its name, or the last place where there is no secret of its name.
pub open spec fn with_key(keys: Keys, name: Seq<char>, secret: Seq<u8>) -> Keys {
    if unnamed(keys, name) {
        keys.push((name, secret))
    } else {
        keys.update(choose|i: int| named_at(keys, name, i), (name, secret))
    }
}

/// The keys that are made of names with their secrets in hexadecimal.
pub open spec fn keys_of(raw: Seq<(String, String)>) -> Keys
    decreases raw.len(),
{
    if raw.len() == 0 {
        Seq::empty()
    } else {
        with_key(
            keys_of(raw.drop_last()),
            raw.last().0@,
            hex_decoded(encode_utf8(raw.last().1@)),
        )
    }
}

/// Every secret is an even number of hexadecimal digits.
pub open spec fn all_hex(raw: Seq<(String, String)>) -> bool {
    forall|i: int| 0 <= i < raw.len() ==> is_hex(encode_utf8((#[trigger] raw[i]).1@))
}

/// The token is not verified with the secret.
pub open spec fn fails_with<F: Fn(&Vec<u8>) -> Result<Claims, String>>(
    check: F,
    secret: &Vec<u8>,
) -> bool {
    exists|failure: String| #[trigger] call_ensures(check, (secret,), Err::<Claims, String>(failure))
}

impl View for KeyCollection {
    type V = Keys;

    open spec fn view(&self) -> Keys {
        Seq::new(self.ids.len() as nat, |i: int| (self.ids[i]@, self.secrets[i]@))
    }
}

impl KeyCollection {
    /// Every name has its secret.
    pub open spec fn wf(&self) -> bool {
        self.ids.len() == self.secrets.len()
    }

    /// The token is verified with none of the secrets before `end`.
    pub open spec fn all_fail<F: Fn(&Vec<u8>) -> Result<Claims, String>>(
        &self,
        check: F,
        end: usize,
    ) -> bool {
        forall|j: int| 0 <= j < end ==> fails_with(check, &#[trigger] self.secrets[j])
    }

    /// The secrets of the followers, from their names and the secrets in
    /// hexadecimal. A later secret takes the place of an earlier one of the
    /// same name. A secret that is not in hexadecimal is an error.
    pub fn load(raw: Vec<(String, String)>) -> (r: Result<KeyCollection, String>)
        ensures
            match r {
                Ok(keys) => all_hex(raw@) && keys.wf() && keys@ == keys_of(raw@),
                Err(message) => !all_hex(raw@) && has_prefix(message@, "Invalid JWT secret: "@),
            },
    {
        let mut keys = KeyCollection { ids: Vec::new(), secrets: Vec::new() };
        assert(keys@ =~= keys_of(raw@.take(0)));
        let mut i: usize = 0;
        while i < raw.len()
            invariant
                i <= raw.len(),
                keys.wf(),
                all_hex(raw@.take(i as int)),
                keys@ == keys_of(raw@.take(i as int)),
            decreases raw.len() - i,
        {
            let entry = &raw[i];
            let byte_secret = match hex_decode(entry.1.as_str()) {
                Ok(bytes) => bytes,
                Err(e) => {
                    let message = joined("Invalid JWT secret: ", e.as_str());
                    assert(message@.subrange(0, "Invalid JWT secret: "@.len() as int)
                        =~= "Invalid JWT secret: "@);
                    assert(!is_hex(encode_utf8(raw@[i as int].1@)));
                    return Err(message);
                },
            };
            let ghost before = keys@;
            proof {
                assert(raw@.take(i + 1).drop_last() =~= raw@.take(i as int));
                assert(raw@.take(i + 1).last() == raw@[i as int]);
                assert forall|k: int| 0 <= k < i + 1 implies is_hex(
                    encode_utf8((#[trigger] raw@.take(i + 1)[k]).1@),
                ) by {
                    if k < i {
                        assert(raw@.take(i + 1)[k] == raw@.take(i as int)[k]);
                    }
                }
            }
            match keys.find(&Some(entry.0.clone())) {
                Some(place) => {
                    keys.ids[place] = entry.0.clone();
                    keys.secrets[place] = byte_secret;
                    proof {
                        let chosen = choose|c: int| named_at(before, entry.0@, c);
                        assert(named_at(before, entry.0@, place as int));
                        assert(before[place as int].0 == entry.0@);
                        if chosen < place {
                            assert(before[chosen].0 != entry.0@);
                        } else if place < chosen {
                            assert(before[place as int].0 != entry.0@);
                        }
                        assert(keys@ =~= with_key(before, entry.0@, byte_secret@));
                    }
                },
                None => {
                    keys.ids.push(entry.0.clone());
                    keys.secrets.push(byte_secret);
                    assert(keys@ =~= with_key(before, entry.0@, byte_secret@));
                },
            }
            i += 1;
        }
        assert(raw@.take(raw.len() as int) =~= raw@);
        Ok(keys)
    }

    /// The place of the secret that the token names, if it names one that is there.
    pub fn find(&self, claimed_id: &Option<String>) -> (place: Option<usize>)
        requires
            self.wf(),
        ensures
            match place {
                Some(i) => claimed_id matches Some(name) && named_at(self@, name@, i as int),
                None => claimed_id matches Some(name) ==> unnamed(self@, name@),
            },
    {
        let name = match claimed_id {
            Some(name) => name,
            None => {
                return None;
            },
        };
        let mut i: usize = 0;
        while i < self.ids.len()
            invariant
                i <= self.ids.len(),
                self.wf(),
                *claimed_id == Some(*name),
                forall|j: int| 0 <= j < i ==> (#[trigger] self@[j]).0 != name@,
            decreases self.ids.len() - i,
        {
            if self.ids[i] == *name {
                return Some(i);
            }
            i += 1;
        }
        None
    }

    /// Verifies a token that claims the given id. `check` verifies the token
    /// with one secret.
    ///
    /// Where the token names a secret that is there, that secret alone
    /// decides. Else every secret is tried in order, and the first that
    /// verifies the token decides; where none does, the token is refused.
    pub fn verify<F: Fn(&Vec<u8>) -> Result<Claims, String>>(
        &self,
        claimed_id: &Option<String>,
        check: F,
    ) -> (r: Result<Claims, String>)
        requires
            self.wf(),
            forall|secret: &Vec<u8>| #[trigger] call_requires(check, (secret,)),
        ensures
            match claimed_id {
                Some(name) if !unnamed(self@, name@) => exists|i: int|
                    named_at(self@, name@, i) && call_ensures(check, (&self.secrets[i],), r),
                _ => match r {
                    Ok(claims) => exists|i: int|
                        0 <= i < self.secrets.len() && self.all_fail(check, i as usize)
                            && #[trigger] call_ensures(check, (&self.secrets[i],), r),
                    Err(message) => self.all_fail(check, self.secrets.len()) && message@
                        == "No matching JWT secret found"@,
                },
            },
    {
        // Look up the secret by the id in the claims.
        match self.find(claimed_id) {
            Some(i) => {
                return check(&self.secrets[i]);
            },
            None => {},
        }
        // Otherwise try every secret.
        let mut i: usize = 0;
        while i < self.secrets.len()
            invariant
                i <= self.secrets.len(),
                self.wf(),
                forall|secret: &Vec<u8>| #[trigger] call_requires(check, (secret,)),
                self.all_fail(check, i),
                claimed_id matches Some(name) ==> unnamed(self@, name@),
            decreases self.secrets.len() - i,
        {
            let outcome = check(&self.secrets[i]);
            match outcome {
                Ok(claims) => {
                    return Ok(claims);
                },
                Err(failure) => {
                    assert(call_ensures(
                        check,
                        (&self.secrets[i as int],),
                        Err::<Claims, String>(failure),
                    ));
                    assert(fails_with(check, &self.secrets[i as int]));
                },
            }
            i += 1;
        }
        Err(String::from_str("No matching JWT secret found"))
    }
}

} // verus!
