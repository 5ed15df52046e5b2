//! Plain data types exchanged between Cyberpixie peers.

use vstd::prelude::*;

use super::packet::{decode_u32_le, encode_u32_le};

verus! {

/// The role of a device in a group of Cyberpixie peers.
#[derive(Clone, Copy, PartialEq, Eq, Structural, Debug)]
pub enum DeviceRole {
    /// A control device such as a telephone or laptop.
    Client,
    /// A main device that receives commands directly from the client and then re-sends them
    /// to the slave devices if they exist.
    Main,
    /// A secondary device that executes commands from the main one.
    Secondary,
}

/// The human readable name of a role.
pub open spec fn role_name(role: DeviceRole) -> Seq<char> {
    match role {
        DeviceRole::Client => "client"@,
        DeviceRole::Main => "main"@,
        DeviceRole::Secondary => "secondary"@,
    }
}

impl DeviceRole {
    /// Returns the human readable name of this role.
    pub fn to_string(&self) -> (s: String)
        ensures
            s@ == role_name(*self),
    {
        match self {
            Self::Client => "client".to_owned(),
            Self::Main => "main".to_owned(),
            Self::Secondary => "secondary".to_owned(),
        }
    }
}

/// Frequency in hertz.
#[derive(Clone, Copy, PartialEq, Eq, Structural, PartialOrd, Ord, Hash, Default, Debug)]
pub struct Hertz(pub u32);

/// Image identifier, that is its index in the device storage.
#[derive(Clone, Copy, PartialEq, Eq, Structural, PartialOrd, Ord, Hash, Default, Debug)]
pub struct ImageId(pub u16);

/// Information about a peer, exchanged during handshake.
#[derive(Clone, Copy, PartialEq, Eq, Structural, Debug)]
pub struct PeerInfo {
    pub role: DeviceRole,
    pub group_id: Option<u32>,
    pub device_info: Option<DeviceInfo>,
}

impl PeerInfo {
    /// The peer information of a client.
    pub fn client() -> (info: Self)
        ensures
            info == (PeerInfo { role: DeviceRole::Client, group_id: None, device_info: None }),
    {
        Self { role: DeviceRole::Client, group_id: None, device_info: None }
    }
}

/// The state of a device.
#[derive(Clone, Copy, PartialEq, Eq, Structural, Debug)]
pub struct DeviceInfo {
    pub strip_len: u16,
    pub images_count: ImageId,
    pub current_image: Option<ImageId>,
    /// Indicates whether there is an active image rendering task.
    pub active: bool,
}

impl DeviceInfo {
    /// The state of a device with the given strip and no images.
    pub fn empty(strip_len: u16) -> (info: Self)
        ensures
            info == (DeviceInfo {
                strip_len,
                images_count: ImageId(0),
                current_image: None,
                active: false,
            }),
    {
        Self { strip_len, images_count: ImageId(0), current_image: None, active: false }
    }
}

/// Parameters of an uploaded image.
#[derive(Clone, Copy, PartialEq, Eq, Structural, Debug)]
pub struct ImageInfo {
    pub refresh_rate: Hertz,
    pub strip_len: u16,
}

/// Board firmware information.
#[derive(Clone, Copy, PartialEq, Eq, Structural, Debug)]
pub struct FirmwareInfo;

/// The digits of a number: the text after an optional leading `+`.
pub open spec fn decimal_digits(s: Seq<char>) -> Seq<char> {
    if s.len() > 0 && s[0] == '+' {
        s.drop_first()
    } else {
        s
    }
}

/// Whether every character is a decimal digit.
pub open spec fn all_decimal(d: Seq<char>) -> bool {
    forall|i: int| 0 <= i < d.len() ==> '0' <= #[trigger] d[i] <= '9'
}

/// The value of a sequence of decimal digits, most significant first.
pub open spec fn decimal_value(d: Seq<char>) -> nat
    decreases d.len(),
{
    if d.len() == 0 {
        0
    } else {
        decimal_value(d.drop_last()) * 10 + (d.last() as int - '0' as int) as nat
    }
}

/// The number that `u32::from_str` reads from a string: an optional `+` followed by at
/// least one decimal digit and nothing else, whose value fits in a `u32`.
pub open spec fn decimal_u32(s: Seq<char>) -> Option<u32> {
    let d = decimal_digits(s);
    if d.len() > 0 && all_decimal(d) && decimal_value(d) <= u32::MAX {
        Some(decimal_value(d) as u32)
    } else {
        None
    }
}

/// A string read as a number holds at least one digit and nothing but decimal digits,
/// after at most one leading `+`; in particular a sign `-` or a space is never accepted.
pub proof fn lemma_decimal_u32_accepts(s: Seq<char>)
    ensures
        decimal_u32(s) is Some ==> {
            &&& s.len() > 0
            &&& s != seq!['+']
            &&& forall|i: int|
                0 <= i < s.len() ==> ('0' <= #[trigger] s[i] <= '9' || (i == 0 && s[i] == '+'))
        },
{
    if decimal_u32(s) is Some {
        let d = decimal_digits(s);
        if s.len() > 0 && s[0] == '+' {
            assert forall|i: int| 1 <= i < s.len() implies '0' <= #[trigger] s[i] <= '9' by {
                assert(s[i] == d[i - 1]);
            }
        }
    }
}

#[verifier::external_type_specification]
#[verifier::external_body]
pub struct ExParseIntError(core::num::ParseIntError);

/// `u32::from_str` of std: reads an optional `+` and then decimal digits only; it fails
/// on an empty string, on any other character and on a value past `u32::MAX`.
#[verifier::external_body]
fn parse_u32(s: &str) -> (r: Result<u32, core::num::ParseIntError>)
    ensures
        r is Ok <==> decimal_u32(s@) is Some,
        r is Ok ==> r->Ok_0 == decimal_u32(s@)->0,
{
    <u32 as core::str::FromStr>::from_str(s)
}

impl Hertz {
    /// Reads a frequency from its decimal representation.
    pub fn parse(s: &str) -> (r: Result<Self, core::num::ParseIntError>)
        ensures
            r is Ok <==> decimal_u32(s@) is Some,
            r is Ok ==> r->Ok_0 == Hertz(decimal_u32(s@)->0),
    {
        match parse_u32(s) {
            Ok(value) => Ok(Hertz(value)),
            Err(e) => Err(e),
        }
    }
}

impl core::str::FromStr for Hertz {
    type Err = core::num::ParseIntError;

    fn from_str(s: &str) -> (r: Result<Self, Self::Err>)
        ensures
            r is Ok <==> decimal_u32(s@) is Some,
            r is Ok ==> r->Ok_0 == Hertz(decimal_u32(s@)->0),
    {
        Self::parse(s)
    }
}

impl From<u32> for Hertz {
    fn from(inner: u32) -> (hz: Self) {
        Self(inner)
    }
}

impl vstd::std_specs::convert::FromSpecImpl<u32> for Hertz {
    open spec fn obeys_from_spec() -> bool {
        true
    }

    open spec fn from_spec(inner: u32) -> Self {
        Hertz(inner)
    }
}

impl Hertz {
    /// Number of bytes of the little endian encoding.
    pub const PACKED_LEN: usize = 4;

    /// Writes the frequency as four little endian bytes.
    pub fn encode_as_le_bytes(&self, bytes: &mut [u8])
        requires
            old(bytes)@.len() == 4,
        ensures
            final(bytes)@ == vstd::bytes::spec_u32_to_le_bytes(self.0),
    {
        encode_u32_le(self.0, bytes);
    }

    /// Reads a frequency from four little endian bytes.
    pub fn decode_from_le_bytes(bytes: &[u8]) -> (hz: Self)
        requires
            bytes@.len() == 4,
        ensures
            hz.0 == vstd::bytes::spec_u32_from_le_bytes(bytes@),
    {
        Hertz(decode_u32_le(bytes))
    }
}

} // verus!
