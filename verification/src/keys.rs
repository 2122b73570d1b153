//! The tagged key space of the flat store.
//!
//! Distinct variants (and distinct parameter values within a parameterized
//! variant) never collide, because keys are compared structurally over the
//! variant tag and its parameters, never through a lossy encoding.

use vstd::prelude::*;

verus! {

/// An account identity, opaque to this layer: the layer only stores
/// identities and compares them structurally.
#[derive(Clone, Copy, PartialEq, Eq, Structural, Debug, Hash)]
pub struct Identity {
    pub id: u64,
}

/// The structured storage keys: one variant per logical entity class.
#[derive(Clone, Copy, PartialEq, Eq, Structural, Debug)]
pub enum AcademyDataKey {
    /// Initialization flag (instance tier).
    Init,
    /// Admin identity (instance tier).
    Admin,
    /// Token reference (instance tier).
    Token,
    /// Governance reference (instance tier).
    Governance,
    /// Monotonic schedule-identifier counter (instance tier).
    Counter,
    /// One vesting-schedule record per numeric identifier (persistent tier).
    Schedule(u64),
    /// Ordered list of schedule identifiers for one user (persistent tier).
    UserScheduleIds(Identity),
    /// Index of schedule identifiers still eligible for claim or revoke
    /// (persistent tier).
    ActiveSchedules,
}

/// Every key a tier can hold: the structured keys, the schema-version key,
/// and the four fixed short-name keys of the pre-structured (legacy) layout.
///
/// The underlying store is flat, so structured and raw keys share one
/// namespace; keeping them in a single sum type makes the absence of
/// collisions a structural fact rather than a property of an encoding.
#[derive(Clone, Copy, PartialEq, Eq, Structural, Debug)]
pub enum StoreKey {
    /// A structured key.
    Data(AcademyDataKey),
    /// The schema-version key (instance tier).
    Version,
    /// Legacy admin identity (persistent tier).
    LegacyAdmin,
    /// Legacy token reference (persistent tier).
    LegacyToken,
    /// Legacy governance reference (persistent tier).
    LegacyGov,
    /// Legacy counter value (persistent tier).
    LegacyCnt,
}

/// A `u64` as eight big-endian bytes.
pub open spec fn u64_be_bytes(x: u64) -> Seq<u8> {
    seq![
        (x >> 56) as u8,
        (x >> 48) as u8,
        (x >> 40) as u8,
        (x >> 32) as u8,
        (x >> 24) as u8,
        (x >> 16) as u8,
        (x >> 8) as u8,
        x as u8,
    ]
}

/// The stable byte encoding of a key for the underlying byte-keyed store:
/// one tag byte per variant, then the parameters at fixed width. An identity
/// parameter can never be confused with a schedule identifier, because the
/// tag decides the variant before any parameter byte is read.
pub open spec fn key_bytes(k: StoreKey) -> Seq<u8> {
    match k {
        StoreKey::Data(AcademyDataKey::Init) => seq![1u8],
        StoreKey::Data(AcademyDataKey::Admin) => seq![2u8],
        StoreKey::Data(AcademyDataKey::Token) => seq![3u8],
        StoreKey::Data(AcademyDataKey::Governance) => seq![4u8],
        StoreKey::Data(AcademyDataKey::Counter) => seq![5u8],
        StoreKey::Data(AcademyDataKey::Schedule(id)) => seq![6u8] + u64_be_bytes(id),
        StoreKey::Data(AcademyDataKey::UserScheduleIds(user)) => seq![7u8] + u64_be_bytes(
            user.id,
        ),
        StoreKey::Data(AcademyDataKey::ActiveSchedules) => seq![8u8],
        StoreKey::Version => seq![9u8],
        StoreKey::LegacyAdmin => seq![10u8],
        StoreKey::LegacyToken => seq![11u8],
        StoreKey::LegacyGov => seq![12u8],
        StoreKey::LegacyCnt => seq![13u8],
    }
}

/// Eight big-endian bytes pin the `u64` they came from.
pub proof fn lemma_u64_be_bytes_injective(x: u64, y: u64)
    requires
        u64_be_bytes(x) == u64_be_bytes(y),
    ensures
        x == y,
{
    assert(u64_be_bytes(x)[0] == u64_be_bytes(y)[0]);
    assert(u64_be_bytes(x)[1] == u64_be_bytes(y)[1]);
    assert(u64_be_bytes(x)[2] == u64_be_bytes(y)[2]);
    assert(u64_be_bytes(x)[3] == u64_be_bytes(y)[3]);
    assert(u64_be_bytes(x)[4] == u64_be_bytes(y)[4]);
    assert(u64_be_bytes(x)[5] == u64_be_bytes(y)[5]);
    assert(u64_be_bytes(x)[6] == u64_be_bytes(y)[6]);
    assert(u64_be_bytes(x)[7] == u64_be_bytes(y)[7]);
    assert((x >> 56) as u8 == (y >> 56) as u8 && (x >> 48) as u8 == (y >> 48) as u8 && (x >> 40)
        as u8 == (y >> 40) as u8 && (x >> 32) as u8 == (y >> 32) as u8 && (x >> 24) as u8 == (y
        >> 24) as u8 && (x >> 16) as u8 == (y >> 16) as u8 && (x >> 8) as u8 == (y >> 8) as u8 && x
        as u8 == y as u8 ==> x == y) by (bit_vector);
}

/// The encoding is injective: distinct keys never collide in the underlying
/// byte-keyed store.
pub proof fn lemma_key_bytes_injective(k1: StoreKey, k2: StoreKey)
    requires
        key_bytes(k1) == key_bytes(k2),
    ensures
        k1 == k2,
{
    assert(key_bytes(k1)[0] == key_bytes(k2)[0]);
    match k1 {
        StoreKey::Data(AcademyDataKey::Init) => assert(key_bytes(k1)[0] == 1u8),
        StoreKey::Data(AcademyDataKey::Admin) => assert(key_bytes(k1)[0] == 2u8),
        StoreKey::Data(AcademyDataKey::Token) => assert(key_bytes(k1)[0] == 3u8),
        StoreKey::Data(AcademyDataKey::Governance) => assert(key_bytes(k1)[0] == 4u8),
        StoreKey::Data(AcademyDataKey::Counter) => assert(key_bytes(k1)[0] == 5u8),
        StoreKey::Data(AcademyDataKey::Schedule(_)) => assert(key_bytes(k1)[0] == 6u8),
        StoreKey::Data(AcademyDataKey::UserScheduleIds(_)) => assert(key_bytes(k1)[0] == 7u8),
        StoreKey::Data(AcademyDataKey::ActiveSchedules) => assert(key_bytes(k1)[0] == 8u8),
        StoreKey::Version => assert(key_bytes(k1)[0] == 9u8),
        StoreKey::LegacyAdmin => assert(key_bytes(k1)[0] == 10u8),
        StoreKey::LegacyToken => assert(key_bytes(k1)[0] == 11u8),
        StoreKey::LegacyGov => assert(key_bytes(k1)[0] == 12u8),
        StoreKey::LegacyCnt => assert(key_bytes(k1)[0] == 13u8),
    }
    match k2 {
        StoreKey::Data(AcademyDataKey::Init) => assert(key_bytes(k2)[0] == 1u8),
        StoreKey::Data(AcademyDataKey::Admin) => assert(key_bytes(k2)[0] == 2u8),
        StoreKey::Data(AcademyDataKey::Token) => assert(key_bytes(k2)[0] == 3u8),
        StoreKey::Data(AcademyDataKey::Governance) => assert(key_bytes(k2)[0] == 4u8),
        StoreKey::Data(AcademyDataKey::Counter) => assert(key_bytes(k2)[0] == 5u8),
        StoreKey::Data(AcademyDataKey::Schedule(_)) => assert(key_bytes(k2)[0] == 6u8),
        StoreKey::Data(AcademyDataKey::UserScheduleIds(_)) => assert(key_bytes(k2)[0] == 7u8),
        StoreKey::Data(AcademyDataKey::ActiveSchedules) => assert(key_bytes(k2)[0] == 8u8),
        StoreKey::Version => assert(key_bytes(k2)[0] == 9u8),
        StoreKey::LegacyAdmin => assert(key_bytes(k2)[0] == 10u8),
        StoreKey::LegacyToken => assert(key_bytes(k2)[0] == 11u8),
        StoreKey::LegacyGov => assert(key_bytes(k2)[0] == 12u8),
        StoreKey::LegacyCnt => assert(key_bytes(k2)[0] == 13u8),
    }
    if let StoreKey::Data(AcademyDataKey::Schedule(a)) = k1 {
        if let StoreKey::Data(AcademyDataKey::Schedule(b)) = k2 {
            assert(u64_be_bytes(a) =~= u64_be_bytes(b)) by {
                assert(key_bytes(k1) == seq![6u8] + u64_be_bytes(a));
                assert(key_bytes(k2) == seq![6u8] + u64_be_bytes(b));
                assert forall|i: int| 0 <= i < 8 implies u64_be_bytes(a)[i] == u64_be_bytes(
                    b,
                )[i] by {
                    assert((seq![6u8] + u64_be_bytes(a))[i + 1] == u64_be_bytes(a)[i]);
                    assert((seq![6u8] + u64_be_bytes(b))[i + 1] == u64_be_bytes(b)[i]);
                }
            }
            lemma_u64_be_bytes_injective(a, b);
        }
    }
    if let StoreKey::Data(AcademyDataKey::UserScheduleIds(a)) = k1 {
        if let StoreKey::Data(AcademyDataKey::UserScheduleIds(b)) = k2 {
            assert(u64_be_bytes(a.id) =~= u64_be_bytes(b.id)) by {
                assert(key_bytes(k1) == seq![7u8] + u64_be_bytes(a.id));
                assert(key_bytes(k2) == seq![7u8] + u64_be_bytes(b.id));
                assert forall|i: int| 0 <= i < 8 implies u64_be_bytes(a.id)[i] == u64_be_bytes(
                    b.id,
                )[i] by {
                    assert((seq![7u8] + u64_be_bytes(a.id))[i + 1] == u64_be_bytes(a.id)[i]);
                    assert((seq![7u8] + u64_be_bytes(b.id))[i + 1] == u64_be_bytes(b.id)[i]);
                }
            }
            lemma_u64_be_bytes_injective(a.id, b.id);
        }
    }
}

/// Appends the eight big-endian bytes of `x`.
fn push_u64_be(out: &mut Vec<u8>, x: u64)
    ensures
        final(out)@ == old(out)@ + u64_be_bytes(x),
{
    out.push(#[verifier::truncate] ((x >> 56) as u8));
    out.push(#[verifier::truncate] ((x >> 48) as u8));
    out.push(#[verifier::truncate] ((x >> 40) as u8));
    out.push(#[verifier::truncate] ((x >> 32) as u8));
    out.push(#[verifier::truncate] ((x >> 24) as u8));
    out.push(#[verifier::truncate] ((x >> 16) as u8));
    out.push(#[verifier::truncate] ((x >> 8) as u8));
    out.push(#[verifier::truncate] (x as u8));
    proof {
        assert(out@ =~= old(out)@ + u64_be_bytes(x));
    }
}

/// The stable, injective encoding of a key, as placed in the underlying
/// byte-keyed store.
pub fn encode_key(k: StoreKey) -> (r: Vec<u8>)
    ensures
        r@ == key_bytes(k),
{
    let mut out: Vec<u8> = Vec::new();
    match k {
        StoreKey::Data(AcademyDataKey::Init) => out.push(1u8),
        StoreKey::Data(AcademyDataKey::Admin) => out.push(2u8),
        StoreKey::Data(AcademyDataKey::Token) => out.push(3u8),
        StoreKey::Data(AcademyDataKey::Governance) => out.push(4u8),
        StoreKey::Data(AcademyDataKey::Counter) => out.push(5u8),
        StoreKey::Data(AcademyDataKey::Schedule(id)) => {
            out.push(6u8);
            push_u64_be(&mut out, id);
        },
        StoreKey::Data(AcademyDataKey::UserScheduleIds(user)) => {
            out.push(7u8);
            push_u64_be(&mut out, user.id);
        },
        StoreKey::Data(AcademyDataKey::ActiveSchedules) => out.push(8u8),
        StoreKey::Version => out.push(9u8),
        StoreKey::LegacyAdmin => out.push(10u8),
        StoreKey::LegacyToken => out.push(11u8),
        StoreKey::LegacyGov => out.push(12u8),
        StoreKey::LegacyCnt => out.push(13u8),
    }
    proof {
        assert(out@ =~= key_bytes(k));
    }
    out
}

} // verus!
