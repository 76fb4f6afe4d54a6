//! What the aircraft tells the network: who it is, where it is, and how it
//! reads what the network answers.

use crate::orders::STATUS_OK;
use crate::state::State;
use crate::units::{normalize_bearing, normalized, NANODEGREES_PER_DEGREE};
use vstd::array::array_fill_for_copy_types;
use vstd::prelude::*;
use vstd::string::is_ascii_spec_bytes;
use vstd::utf8::{decode_utf8, is_ascii_chars, valid_utf8};

verus! {

/// The width of the identifier field of an identity message, in bytes.
pub const UAS_ID_WIDTH: usize = 20;

/// What can go wrong between the aircraft and the network.
#[derive(Debug, Clone, Copy, PartialEq, Eq)]
pub enum NetworkError {
    /// The network did not accept the token, or gave none.
    Unauthorized,
    /// The network could not be reached or understood.
    Other,
}

/// The kind of identifier that an identity message carries.
#[derive(Debug, Clone, Copy, PartialEq, Eq)]
pub enum IdKind {
    /// The identifier of the aircraft itself.
    CaaAssigned,
    /// The identifier of the session that the aircraft flies.
    SpecificSession,
}

/// Whether the aircraft is on the ground or in the air.
#[derive(Debug, Clone, Copy, PartialEq, Eq)]
pub enum OperationalStatus {
    Ground,
    Airborne,
}

/// The identifier to broadcast, and its kind.
#[derive(Debug, Clone, PartialEq, Eq)]
pub struct Identity {
    pub kind: IdKind,
    pub id: String,
}

impl NetworkError {
    /// The error in a word.
    pub fn describe(&self) -> (word: String)
        ensures
            *self == NetworkError::Unauthorized ==> word@ == "Unauthorized"@,
            *self == NetworkError::Other ==> word@ == "Other"@,
    {
        match self {
            NetworkError::Unauthorized => "Unauthorized".to_owned(),
            NetworkError::Other => "Other".to_owned(),
        }
    }
}

/// `text` without its double quotes.
pub open spec fn without_quotes(text: Seq<char>) -> Seq<char> {
    text.filter(|c: char| c != '"')
}

/// Whether an identifier fills the identifier field: it is ASCII and no
/// longer than the field.
pub open spec fn fits_uas_id(id: Seq<char>) -> bool {
    is_ascii_chars(id) && id.len() <= UAS_ID_WIDTH
}

/// An identifier set to the right of the identifier field, with spaces
/// before it.
pub open spec fn padded_uas_id(id: Seq<char>) -> Seq<u8> {
    Seq::new(
        UAS_ID_WIDTH as nat,
        |i: int|
            if i < UAS_ID_WIDTH - id.len() {
                0x20u8
            } else {
                id[i - (UAS_ID_WIDTH - id.len())] as u8
            },
    )
}

/// `String::from_utf8` of std: the text that `bytes` encode, where they are
/// valid UTF-8, and nothing where they are not.
#[verifier::external_body]
fn text_of(bytes: Vec<u8>) -> (text: Option<String>)
    ensures
        text is Some <==> valid_utf8(bytes@),
        text matches Some(decoded) ==> decoded@ == decode_utf8(bytes@),
{
    String::from_utf8(bytes).ok()
}

/// Judges the reply of the network to a report by its status: anything but
/// `STATUS_OK` means that the token was not accepted.
pub fn report_reply(status: u16) -> (reply: Result<(), NetworkError>)
    ensures
        reply is Ok <==> status == STATUS_OK,
        reply is Err ==> reply == Err::<(), NetworkError>(NetworkError::Unauthorized),
{
    if status == STATUS_OK {
        Ok(())
    } else {
        Err(NetworkError::Unauthorized)
    }
}

/// Takes the double quotes out of a text.
pub fn strip_quotes(text: &str) -> (stripped: String)
    ensures
        stripped@ == without_quotes(text@),
{
    let n: usize = text.unicode_len();
    let mut stripped: String = String::new();
    let mut i: usize = 0;
    proof {
        reveal(Seq::filter);
        assert(text@.take(0) =~= Seq::<char>::empty());
    }
    while i < n
        invariant
            n == text@.len(),
            i <= n,
            stripped@ == without_quotes(text@.take(i as int)),
        decreases n - i,
    {
        let c: char = text.get_char(i);
        proof {
            reveal(Seq::filter);
            assert(text@.take(i + 1).drop_last() =~= text@.take(i as int));
            assert(text@.take(i + 1).last() == c);
        }
        if c != '"' {
            stripped.append(text.substring_char(i, i + 1));
            assert(text@.subrange(i as int, i + 1) =~= seq![c]);
            assert(stripped@ =~= without_quotes(text@.take(i as int)).push(c));
        }
        i = i + 1;
    }
    assert(text@.take(n as int) =~= text@);
    stripped
}

/// Reads the token out of the reply to a login.
///
/// A status other than `STATUS_OK` means that the login was refused. A body
/// that is not valid UTF-8 cannot be read. Otherwise the token is the text
/// of the body without its double quotes.
pub fn token_from_reply(status: u16, body: Vec<u8>) -> (token: Result<String, NetworkError>)
    ensures
        status != STATUS_OK ==> token == Err::<String, NetworkError>(NetworkError::Unauthorized),
        status == STATUS_OK && !valid_utf8(body@) ==> token == Err::<String, NetworkError>(
            NetworkError::Other,
        ),
        status == STATUS_OK && valid_utf8(body@) ==> (token matches Ok(text) && text@
            == without_quotes(decode_utf8(body@))),
{
    if status != STATUS_OK {
        return Err(NetworkError::Unauthorized);
    }
    match text_of(body) {
        Some(text) => Ok(strip_quotes(text.as_str())),
        None => Err(NetworkError::Other),
    }
}

/// Lays an identifier out in the identifier field of an identity message:
/// to the right, with spaces before it. An identifier that is too long for
/// the field, or not ASCII, cannot be laid out.
pub fn uas_id_bytes(id: &str) -> (field: Option<[u8; 20]>)
    ensures
        field is Some <==> fits_uas_id(id@),
        field matches Some(bytes) ==> bytes@ == padded_uas_id(id@),
{
    if !id.is_ascii() {
        return None;
    }
    let bytes: &[u8] = id.as_bytes();
    let n: usize = bytes.len();
    proof {
        is_ascii_spec_bytes(id);
    }
    if n > UAS_ID_WIDTH {
        return None;
    }
    let pad: usize = UAS_ID_WIDTH - n;
    let mut field: [u8; 20] = array_fill_for_copy_types(0x20u8);
    let mut i: usize = 0;
    while i < n
        invariant
            n == bytes@.len(),
            n == id@.len(),
            n <= UAS_ID_WIDTH,
            pad == UAS_ID_WIDTH - n,
            i <= n,
            forall|k: int| 0 <= k < n ==> bytes@[k] == id@[k] as u8,
            forall|k: int| 0 <= k < pad ==> field@[k] == 0x20u8,
            forall|k: int| pad <= k < pad + i ==> field@[k] == bytes@[k - pad],
        decreases n - i,
    {
        field[pad + i] = bytes[i];
        i = i + 1;
    }
    assert(field@ =~= padded_uas_id(id@));
    Some(field)
}

/// The identifier that the aircraft broadcasts: that of the session while it
/// flies a plan, its own while it flies none.
pub fn identity(state: &State) -> (shown: Identity)
    ensures
        state.current_plan matches Some(plan) ==> shown.kind == IdKind::SpecificSession
            && shown.id@ == plan.session_id@,
        state.current_plan is None ==> shown.kind == IdKind::CaaAssigned && shown.id@
            == state.id@,
{
    match &state.current_plan {
        Some(plan) => Identity { kind: IdKind::SpecificSession, id: plan.session_id.clone() },
        None => Identity { kind: IdKind::CaaAssigned, id: state.id.clone() },
    }
}

/// The aircraft is in the air exactly while it has ground speed.
pub fn operational_status(state: &State) -> (status: OperationalStatus)
    ensures
        status == OperationalStatus::Airborne <==> state.ground_velocity_um_s > 0,
        status == OperationalStatus::Ground <==> state.ground_velocity_um_s == 0,
{
    if state.ground_velocity_um_s > 0 {
        OperationalStatus::Airborne
    } else {
        OperationalStatus::Ground
    }
}

/// The track in whole degrees, rounded down: a direction that a position
/// message can carry, whatever the track was.
pub fn track_direction_deg(state: &State) -> (degrees: u16)
    ensures
        degrees == normalized(state.track_angle_ndeg as int) / (NANODEGREES_PER_DEGREE as int),
        degrees < 360,
        state.wf() ==> degrees == state.track_angle_ndeg / NANODEGREES_PER_DEGREE,
{
    let track: u64 = normalize_bearing(state.track_angle_ndeg) as u64;
    let degrees: u64 = track / 1_000_000_000;
    proof {
        if state.wf() {
            vstd::arithmetic::div_mod::lemma_small_mod(
                state.track_angle_ndeg as nat,
                360_000_000_000nat,
            );
        }
    }
    degrees as u16
}

} // verus!
