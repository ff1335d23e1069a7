//! The library's calls into other crates and into parts of std that vstd does
//! not specify. Every contract here is believed, not proved: each doc comment
//! says what is claimed of the code that is called.

use vstd::prelude::*;

verus! {

/// `tokio::sync::mpsc::Sender`, the handle through which a running child's
/// watcher is asked to kill it. Opaque: it is only carried and used to send.
#[verifier::external_type_specification]
#[verifier::external_body]
#[verifier::reject_recursive_types(T)]
pub struct ExSender<T>(tokio::sync::mpsc::Sender<T>);

/// The standard base64 alphabet (RFC 4648, section 4).
pub open spec fn base64_alphabet() -> Seq<char> {
    "ABCDEFGHIJKLMNOPQRSTUVWXYZabcdefghijklmnopqrstuvwxyz0123456789+/"@
}

/// The character for the 6-bit value `v`.
pub open spec fn b64(v: int) -> char {
    base64_alphabet()[v]
}

/// Standard base64 with `=` padding (RFC 4648, section 4): every group of
/// three bytes becomes four characters of six bits each; a last group of
/// one or two bytes is padded with zero bits and then with `=` to four.
pub open spec fn base64_standard(bytes: Seq<u8>) -> Seq<char>
    decreases bytes.len(),
{
    if bytes.len() == 0 {
        Seq::empty()
    } else if bytes.len() == 1 {
        let b0 = bytes[0] as int;
        seq![b64(b0 / 4), b64((b0 % 4) * 16), '=', '=']
    } else if bytes.len() == 2 {
        let b0 = bytes[0] as int;
        let b1 = bytes[1] as int;
        seq![b64(b0 / 4), b64((b0 % 4) * 16 + b1 / 16), b64((b1 % 16) * 4), '=']
    } else {
        let b0 = bytes[0] as int;
        let b1 = bytes[1] as int;
        let b2 = bytes[2] as int;
        seq![b64(b0 / 4), b64((b0 % 4) * 16 + b1 / 16), b64((b1 % 16) * 4 + b2 / 64), b64(b2 % 64)]
            + base64_standard(bytes.subrange(3, bytes.len() as int))
    }
}

/// What `std::path::Path::extension` gives for the path `path`, read as text.
pub uninterp spec fn path_extension_of(path: Seq<char>) -> Option<Seq<char>>;

/// Whether `id` carries the version-4 nibble and the RFC 4122 variant bits
/// that `uuid::Uuid::new_v4` sets.
pub open spec fn is_v4_id(id: u128) -> bool {
    id & 0xF000_C000_0000_0000_0000u128 == 0x4000_8000_0000_0000_0000u128
}

/// `uuid::Uuid::new_v4()`, read as its 128-bit value by `Uuid::as_u128`.
/// The value is random: the only claim is that of every outcome, that
/// `new_v4` masks in the version and variant bits (`is_v4_id`).
#[verifier::external_body]
pub(crate) fn random_id() -> (id: u128)
    ensures
        is_v4_id(id),
{
    uuid::Uuid::new_v4().as_u128()
}

/// `BASE64_STANDARD.encode(bytes)` from the `base64` crate. Claims that the
/// result is the standard padded encoding of `bytes`, and that its length is
/// the padded length `encoded_len` computes, four characters for every
/// started group of three bytes. `encode` panics when that length overflows
/// `usize`, which `requires` leaves out.
#[verifier::external_body]
pub(crate) fn base64_encode(bytes: &[u8]) -> (r: String)
    requires
        4 * ((bytes@.len() + 2) / 3) <= usize::MAX,
    ensures
        r@ == base64_standard(bytes@),
        r@.len() == 4 * ((bytes@.len() + 2) / 3),
{
    base64::Engine::encode(&base64::prelude::BASE64_STANDARD, bytes)
}

/// `std::path::Path::new(path).extension()`, converted to text. Claims that
/// the result is the named extension of `path`; and, as the documentation of
/// `extension` says, that there is none when `path` holds no `.`, and that an
/// extension, being the part of the file name after its final `.`, holds no
/// `.` itself.
#[verifier::external_body]
pub(crate) fn path_extension(path: &str) -> (r: Option<String>)
    ensures
        match r {
            Some(e) => path_extension_of(path@) == Some(e@) && !e@.contains('.'),
            None => path_extension_of(path@) is None,
        },
        !path@.contains('.') ==> r is None,
{
    match std::path::Path::new(path).extension() {
        Some(e) => match e.to_str() {
            Some(t) => Some(t.to_string()),
            None => None,
        },
        None => None,
    }
}

/// `tokio::sync::mpsc::Sender::try_send(())`: asks the watcher of a child to
/// kill it. Whether the message was taken (the channel may be full or closed)
/// is discarded, so nothing is claimed.
#[verifier::external_body]
pub(crate) fn send_kill(killer: &tokio::sync::mpsc::Sender<()>) {
    let _ = killer.try_send(());
}

} // verus!
