//! Where the supervisor listens: the setting `protocol:address`.

use vstd::prelude::*;
use vstd::string::StringSliceAdditionalSpecFns;

verus! {

/// The setting that is used where none is given.
pub const DEFAULT_BIND: &'static str = "tcp:0.0.0.0:8080";

/// The byte `:`.
pub const COLON: u8 = 58;

/// The kind of socket to listen on.
#[derive(Debug, Clone, Copy, PartialEq, Eq, Structural)]
pub enum Protocol {
    Tcp,
    Unix,
}

/// Why a setting cannot be used.
#[derive(Debug, Clone, Copy, PartialEq, Eq, Structural)]
pub enum BindError {
    /// The setting holds no `:`.
    Malformed,
    /// What stands before the first `:` is neither `tcp` nor `unix`.
    UnknownProtocol,
}

/// A setting that was read: the protocol, and where in the setting the
/// address begins.
#[derive(Debug, Clone, Copy, PartialEq, Eq, Structural)]
pub struct Bind {
    pub protocol: Protocol,
    pub address_at: usize,
}

/// The lower-case form of an ASCII letter, any other byte unchanged.
pub open spec fn lower(byte: u8) -> u8 {
    if 65 <= byte <= 90 {
        (byte + 32) as u8
    } else {
        byte
    }
}

/// `bytes` with its ASCII letters in lower case.
pub open spec fn lowered(bytes: Seq<u8>) -> Seq<u8> {
    Seq::new(bytes.len(), |i: int| lower(bytes[i]))
}

/// The place of the first `:` in `bytes`, or the length of `bytes` where it
/// holds none.
pub open spec fn first_colon(bytes: Seq<u8>) -> int
    decreases bytes.len(),
{
    if bytes.len() == 0 {
        0
    } else if bytes[0] == COLON {
        0
    } else {
        1 + first_colon(bytes.skip(1))
    }
}

/// The name `tcp`.
pub open spec fn tcp_name() -> Seq<u8> {
    seq![116u8, 99u8, 112u8]
}

/// The name `unix`.
pub open spec fn unix_name() -> Seq<u8> {
    seq![117u8, 110u8, 105u8, 120u8]
}

/// What a setting is read as. The protocol stands before the first `:`, in
/// upper or lower case; the address is all that follows it.
pub open spec fn bind_of(bytes: Seq<u8>) -> Result<Bind, BindError> {
    let colon = first_colon(bytes);
    let name = lowered(bytes.take(colon));
    if colon >= bytes.len() {
        Err(BindError::Malformed)
    } else if name == tcp_name() {
        Ok(Bind { protocol: Protocol::Tcp, address_at: (colon + 1) as usize })
    } else if name == unix_name() {
        Ok(Bind { protocol: Protocol::Unix, address_at: (colon + 1) as usize })
    } else {
        Err(BindError::UnknownProtocol)
    }
}

/// The place of the first `:` in `bytes`, or the length of `bytes`.
fn find_colon(bytes: &[u8]) -> (colon: usize)
    ensures
        colon == first_colon(bytes@),
        colon <= bytes.len(),
        forall|k: int| 0 <= k < colon ==> bytes@[k] != COLON,
        colon < bytes.len() ==> bytes@[colon as int] == COLON,
{
    let mut i: usize = 0;
    assert(bytes@.skip(0) =~= bytes@);
    while i < bytes.len() && bytes[i] != COLON
        invariant
            i <= bytes.len(),
            first_colon(bytes@) == i + first_colon(bytes@.skip(i as int)),
            forall|k: int| 0 <= k < i ==> bytes@[k] != COLON,
        decreases bytes.len() - i,
    {
        assert(bytes@.skip(i as int)[0] == bytes@[i as int]);
        assert(bytes@.skip(i as int).skip(1) =~= bytes@.skip(i + 1));
        i = i + 1;
    }
    if i < bytes.len() {
        assert(bytes@.skip(i as int)[0] == bytes@[i as int]);
    }
    i
}

/// The lower-case form of an ASCII letter, any other byte unchanged.
fn to_lower(byte: u8) -> (res: u8)
    ensures
        res == lower(byte),
{
    if 65 <= byte && byte <= 90 {
        byte + 32
    } else {
        byte
    }
}

/// Reads a setting of the form `protocol:address`.
pub fn parse_bind(setting: &str) -> (result: Result<Bind, BindError>)
    ensures
        result == bind_of(setting.spec_bytes()),
        result matches Ok(bind) ==> 0 < bind.address_at <= setting.spec_bytes().len()
            && setting.spec_bytes()[bind.address_at - 1] == COLON,
{
    let bytes = setting.as_bytes();
    let colon = find_colon(bytes);
    if colon >= bytes.len() {
        return Err(BindError::Malformed);
    }
    let ghost name = lowered(bytes@.take(colon as int));
    if colon == 3 && to_lower(bytes[0]) == 116u8 && to_lower(bytes[1]) == 99u8 && to_lower(
        bytes[2],
    ) == 112u8 {
        assert(name =~= tcp_name());
        Ok(Bind { protocol: Protocol::Tcp, address_at: colon + 1 })
    } else if colon == 4 && to_lower(bytes[0]) == 117u8 && to_lower(bytes[1]) == 110u8
        && to_lower(bytes[2]) == 105u8 && to_lower(bytes[3]) == 120u8 {
        assert(name =~= unix_name());
        assert(name != tcp_name()) by {
            assert(tcp_name().len() == 3);
        }
        Ok(Bind { protocol: Protocol::Unix, address_at: colon + 1 })
    } else {
        assert(name != tcp_name()) by {
            if name == tcp_name() {
                assert(tcp_name().len() == 3);
                assert(name[0] == 116u8 && name[1] == 99u8 && name[2] == 112u8);
            }
        }
        assert(name != unix_name()) by {
            if name == unix_name() {
                assert(unix_name().len() == 4);
                assert(name[0] == 117u8 && name[1] == 110u8 && name[2] == 105u8 && name[3]
                    == 120u8);
            }
        }
        Err(BindError::UnknownProtocol)
    }
}

} // verus!
