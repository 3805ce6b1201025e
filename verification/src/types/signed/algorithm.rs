//! COSE signing algorithm identifiers (IANA "COSE Algorithms" registry, updated by
//! RFC 9864).
use vstd::prelude::*;
use crate::text::{concat, push_str, push_i64, dec_int};

verus! {

/// A COSE algorithm identifier.
#[derive(Clone, Copy, Debug, PartialEq, Eq, Hash, Structural)]
#[non_exhaustive]
pub enum CoseAlgorithm {
    /// ESP256 (-9): ECDSA P-256 with SHA-256.
    Esp256,
    /// Ed25519 (-19).
    Ed25519,
    /// PS256 (-37): RSASSA-PSS with SHA-256.
    Ps256,
    /// PS384 (-38): RSASSA-PSS with SHA-384.
    Ps384,
    /// PS512 (-39): RSASSA-PSS with SHA-512.
    Ps512,
    /// ESP384 (-51): ECDSA P-384 with SHA-384.
    Esp384,
    /// ESP512 (-52): ECDSA P-521 with SHA-512.
    Esp512,
    /// Ed448 (-53).
    Ed448,
    /// ES256 (-7), deprecated polymorphic identifier.
    Es256,
    /// EdDSA (-8), deprecated polymorphic identifier.
    EdDsa,
    /// ES384 (-35), deprecated polymorphic identifier.
    Es384,
    /// ES512 (-36), deprecated polymorphic identifier.
    Es512,
    /// An identifier not in the list above.
    Unknown(i64),
}

/// The algorithm an identifier denotes.
pub open spec fn alg_of(n: i64) -> CoseAlgorithm {
    if n == -7 {
        CoseAlgorithm::Es256
    } else if n == -8 {
        CoseAlgorithm::EdDsa
    } else if n == -9 {
        CoseAlgorithm::Esp256
    } else if n == -19 {
        CoseAlgorithm::Ed25519
    } else if n == -35 {
        CoseAlgorithm::Es384
    } else if n == -36 {
        CoseAlgorithm::Es512
    } else if n == -37 {
        CoseAlgorithm::Ps256
    } else if n == -38 {
        CoseAlgorithm::Ps384
    } else if n == -39 {
        CoseAlgorithm::Ps512
    } else if n == -51 {
        CoseAlgorithm::Esp384
    } else if n == -52 {
        CoseAlgorithm::Esp512
    } else if n == -53 {
        CoseAlgorithm::Ed448
    } else {
        CoseAlgorithm::Unknown(n)
    }
}

/// The identifier of an algorithm.
pub open spec fn alg_id(a: CoseAlgorithm) -> i64 {
    match a {
        CoseAlgorithm::Es256 => -7i64,
        CoseAlgorithm::EdDsa => -8i64,
        CoseAlgorithm::Esp256 => -9i64,
        CoseAlgorithm::Ed25519 => -19i64,
        CoseAlgorithm::Es384 => -35i64,
        CoseAlgorithm::Es512 => -36i64,
        CoseAlgorithm::Ps256 => -37i64,
        CoseAlgorithm::Ps384 => -38i64,
        CoseAlgorithm::Ps512 => -39i64,
        CoseAlgorithm::Esp384 => -51i64,
        CoseAlgorithm::Esp512 => -52i64,
        CoseAlgorithm::Ed448 => -53i64,
        CoseAlgorithm::Unknown(n) => n,
    }
}

/// The display name of an algorithm.
pub open spec fn alg_name(a: CoseAlgorithm) -> Seq<char> {
    match a {
        CoseAlgorithm::Esp256 => "ESP256"@,
        CoseAlgorithm::Ed25519 => "Ed25519"@,
        CoseAlgorithm::Ps256 => "PS256"@,
        CoseAlgorithm::Ps384 => "PS384"@,
        CoseAlgorithm::Ps512 => "PS512"@,
        CoseAlgorithm::Esp384 => "ESP384"@,
        CoseAlgorithm::Esp512 => "ESP512"@,
        CoseAlgorithm::Ed448 => "Ed448"@,
        CoseAlgorithm::Es256 => "ES256 (deprecated)"@,
        CoseAlgorithm::EdDsa => "EdDSA (deprecated)"@,
        CoseAlgorithm::Es384 => "ES384 (deprecated)"@,
        CoseAlgorithm::Es512 => "ES512 (deprecated)"@,
        CoseAlgorithm::Unknown(_) => "Unknown"@,
    }
}

/// The deprecated polymorphic identifiers (RFC 9864 §4.2.2).
pub open spec fn alg_deprecated(a: CoseAlgorithm) -> bool {
    a is Es256 || a is EdDsa || a is Es384 || a is Es512
}

/// The rendering of an algorithm: `"<name> (<id>)"`, or `"Unknown(<id>)"`.
pub open spec fn alg_text(a: CoseAlgorithm) -> Seq<char> {
    match a {
        CoseAlgorithm::Unknown(n) => "Unknown("@ + dec_int(n as int) + ")"@,
        _ => alg_name(a) + " ("@ + dec_int(alg_id(a) as int) + ")"@,
    }
}

impl CoseAlgorithm {
    /// The algorithm an integer identifier denotes (`Unknown` for unlisted ones).
    pub fn from_i64(n: i64) -> (a: Self)
        ensures
            a == alg_of(n),
    {
        match n {
            -7 => CoseAlgorithm::Es256,
            -8 => CoseAlgorithm::EdDsa,
            -9 => CoseAlgorithm::Esp256,
            -19 => CoseAlgorithm::Ed25519,
            -35 => CoseAlgorithm::Es384,
            -36 => CoseAlgorithm::Es512,
            -37 => CoseAlgorithm::Ps256,
            -38 => CoseAlgorithm::Ps384,
            -39 => CoseAlgorithm::Ps512,
            -51 => CoseAlgorithm::Esp384,
            -52 => CoseAlgorithm::Esp512,
            -53 => CoseAlgorithm::Ed448,
            other => CoseAlgorithm::Unknown(other),
        }
    }

    /// The integer identifier.
    pub fn to_i64(self) -> (n: i64)
        ensures
            n == alg_id(self),
    {
        match self {
            CoseAlgorithm::Es256 => -7,
            CoseAlgorithm::EdDsa => -8,
            CoseAlgorithm::Esp256 => -9,
            CoseAlgorithm::Ed25519 => -19,
            CoseAlgorithm::Es384 => -35,
            CoseAlgorithm::Es512 => -36,
            CoseAlgorithm::Ps256 => -37,
            CoseAlgorithm::Ps384 => -38,
            CoseAlgorithm::Ps512 => -39,
            CoseAlgorithm::Esp384 => -51,
            CoseAlgorithm::Esp512 => -52,
            CoseAlgorithm::Ed448 => -53,
            CoseAlgorithm::Unknown(n) => n,
        }
    }

    /// Human-readable name (deprecated identifiers say so).
    pub fn name(&self) -> (s: &'static str)
        ensures
            s@ == alg_name(*self),
    {
        proof {
            reveal_strlit("ESP256");
            reveal_strlit("Ed25519");
            reveal_strlit("PS256");
            reveal_strlit("PS384");
            reveal_strlit("PS512");
            reveal_strlit("ESP384");
            reveal_strlit("ESP512");
            reveal_strlit("Ed448");
            reveal_strlit("ES256 (deprecated)");
            reveal_strlit("EdDSA (deprecated)");
            reveal_strlit("ES384 (deprecated)");
            reveal_strlit("ES512 (deprecated)");
            reveal_strlit("Unknown");
        }
        match self {
            CoseAlgorithm::Esp256 => "ESP256",
            CoseAlgorithm::Ed25519 => "Ed25519",
            CoseAlgorithm::Ps256 => "PS256",
            CoseAlgorithm::Ps384 => "PS384",
            CoseAlgorithm::Ps512 => "PS512",
            CoseAlgorithm::Esp384 => "ESP384",
            CoseAlgorithm::Esp512 => "ESP512",
            CoseAlgorithm::Ed448 => "Ed448",
            CoseAlgorithm::Es256 => "ES256 (deprecated)",
            CoseAlgorithm::EdDsa => "EdDSA (deprecated)",
            CoseAlgorithm::Es384 => "ES384 (deprecated)",
            CoseAlgorithm::Es512 => "ES512 (deprecated)",
            CoseAlgorithm::Unknown(_) => "Unknown",
        }
    }

    /// Whether this is one of the deprecated polymorphic identifiers.
    pub fn is_deprecated(&self) -> (b: bool)
        ensures
            b == alg_deprecated(*self),
    {
        match self {
            CoseAlgorithm::Es256 | CoseAlgorithm::EdDsa | CoseAlgorithm::Es384
            | CoseAlgorithm::Es512 => true,
            _ => false,
        }
    }

    /// The rendering `"<name> (<id>)"`, or `"Unknown(<id>)"`.
    pub fn to_text(&self) -> (s: String)
        ensures
            s@ == alg_text(*self),
    {
        proof {
            reveal_strlit("Unknown(");
            reveal_strlit(")");
            reveal_strlit(" (");
        }
        match self {
            CoseAlgorithm::Unknown(n) => {
                let mut s = String::from_str("Unknown(");
                push_i64(&mut s, *n);
                push_str(&mut s, ")");
                s
            },
            _ => {
                let mut s = concat(self.name(), " (");
                push_i64(&mut s, self.to_i64());
                push_str(&mut s, ")");
                s
            },
        }
    }
}

/// Every listed identifier names its algorithm and back: `to_i64(from_i64(n)) == n`.
pub proof fn lemma_alg_id_round_trip(n: i64)
    ensures
        alg_id(alg_of(n)) == n,
{
}

/// Every algorithm's identifier reads back as that algorithm, except an `Unknown` that
/// carries a listed identifier.
pub proof fn lemma_alg_round_trip(a: CoseAlgorithm)
    requires
        !(a is Unknown) || alg_of(a->Unknown_0) is Unknown,
    ensures
        alg_of(alg_id(a)) == a,
{
}

} // verus!
