//! What the root and the leaf certificates say: subject, lifetime, serial size,
//! constraints, key usages and alternative name.
use vstd::prelude::*;

verus! {

/// One attribute of a distinguished name, by its short field name (`C`, `ST`,
/// `O`, `CN`).
pub struct NameEntry {
    pub field: String,
    pub value: String,
}

impl NameEntry {
    pub open spec fn view(&self) -> (Seq<char>, Seq<char>) {
        (self.field@, self.value@)
    }
}

/// The key usages that a certificate asserts.
#[derive(Clone, Copy, PartialEq, Eq, Structural)]
pub struct KeyUsages {
    pub key_cert_sign: bool,
    pub crl_sign: bool,
    pub digital_signature: bool,
    pub non_repudiation: bool,
    pub key_encipherment: bool,
}

/// The message digest that signatures use.
#[derive(Clone, Copy, PartialEq, Eq, Structural)]
pub enum Digest {
    Sha256,
}

/// Whose subject a certificate names as its issuer, and whose key signs it.
#[derive(Clone, Copy, PartialEq, Eq, Structural)]
pub enum Issuer {
    /// Self-signed: its own subject, its own key.
    Itself,
    /// The subject and the key of the CA that issues it.
    SigningCa,
}

/// X.509 version 3, as the version field encodes it.
pub const X509_V3: i32 = 2;

/// Size of every RSA key generated, in bits.
pub const RSA_KEY_BITS: u32 = 2048;

/// The contents of a certificate to issue, apart from its keys.
pub struct CertProfile {
    /// Size of the fresh RSA key, in bits.
    pub key_bits: u32,
    /// The version field (`X509_V3`).
    pub version: i32,
    pub subject: Vec<NameEntry>,
    pub issuer: Issuer,
    /// Digest of the certificate's signature and, for a leaf, of the signing
    /// request that carries its subject and key.
    pub digest: Digest,
    /// Size of the random serial number, in bits.
    pub serial_bits: i32,
    /// Whether the top bit of the serial is set, which makes it positive and
    /// exactly `serial_bits` bits long.
    pub serial_top_bit_set: bool,
    /// Validity from now, in days.
    pub valid_days: u32,
    /// Whether basic constraints mark it as a CA.
    pub is_ca: bool,
    /// Whether the basic constraints extension is critical.
    pub constraints_critical: bool,
    pub key_usage: KeyUsages,
    /// Whether the key usage extension is critical.
    pub usage_critical: bool,
    /// Whether it carries a subject key identifier.
    pub has_subject_key_id: bool,
    /// Whether it names the key of its issuer (an authority key identifier).
    pub names_issuer_key: bool,
    /// The DNS name of its subject alternative name, if any.
    pub san_dns: Option<String>,
}

impl CertProfile {
    pub open spec fn subject_view(&self) -> Seq<(Seq<char>, Seq<char>)> {
        self.subject@.map_values(|e: NameEntry| e.view())
    }
}

/// Country, province and organisation shared by every certificate issued,
/// then the common name.
pub open spec fn subject_for(common_name: Seq<char>) -> Seq<(Seq<char>, Seq<char>)> {
    seq![("C"@, "CN"@), ("ST"@, "GuangDong"@), ("O"@, "thlstsul"@), ("CN"@, common_name)]
}

/// The common name of the root.
pub open spec fn root_common_name() -> Seq<char> {
    "thlstsul.github.io"@
}

pub const SERIAL_BITS: i32 = 159;

pub const ROOT_VALID_DAYS: u32 = 7300;

pub const LEAF_VALID_DAYS: u32 = 365;

fn entry(field: &str, value: &str) -> (r: NameEntry)
    ensures
        r.view() == (field@, value@),
{
    NameEntry { field: field.to_owned(), value: value.to_owned() }
}

fn subject(common_name: &str) -> (r: Vec<NameEntry>)
    ensures
        r@.map_values(|e: NameEntry| e.view()) == subject_for(common_name@),
{
    let mut v: Vec<NameEntry> = Vec::new();
    v.push(entry("C", "CN"));
    v.push(entry("ST", "GuangDong"));
    v.push(entry("O", "thlstsul"));
    v.push(entry("CN", common_name));
    assert(v@.map_values(|e: NameEntry| e.view()) =~= subject_for(common_name@));
    v
}

/// The self-signed root: an X.509 v3 CA on an RSA-2048 key, signed with
/// SHA-256, for twenty years, that may sign certificates and revocation lists,
/// with critical constraints and key usages and a subject key identifier.
pub fn root_profile() -> (r: CertProfile)
    ensures
        r.key_bits == RSA_KEY_BITS,
        r.version == X509_V3,
        r.subject_view() == subject_for(root_common_name()),
        r.issuer == Issuer::Itself,
        r.digest == Digest::Sha256,
        r.serial_bits == SERIAL_BITS,
        r.serial_top_bit_set,
        r.valid_days == ROOT_VALID_DAYS,
        r.is_ca,
        r.constraints_critical,
        r.usage_critical,
        r.has_subject_key_id,
        r.key_usage == (KeyUsages {
            key_cert_sign: true,
            crl_sign: true,
            digital_signature: false,
            non_repudiation: false,
            key_encipherment: false,
        }),
        !r.names_issuer_key,
        r.san_dns is None,
{
    CertProfile {
        key_bits: RSA_KEY_BITS,
        version: X509_V3,
        subject: subject("thlstsul.github.io"),
        issuer: Issuer::Itself,
        digest: Digest::Sha256,
        serial_bits: SERIAL_BITS,
        serial_top_bit_set: true,
        valid_days: ROOT_VALID_DAYS,
        is_ca: true,
        constraints_critical: true,
        usage_critical: true,
        has_subject_key_id: true,
        key_usage: KeyUsages {
            key_cert_sign: true,
            crl_sign: true,
            digital_signature: false,
            non_repudiation: false,
            key_encipherment: false,
        },
        names_issuer_key: false,
        san_dns: None,
    }
}

/// The leaf for `domain`: an X.509 v3 certificate on a fresh RSA-2048 key,
/// issued and signed with SHA-256 by the signing CA, not a CA itself (the
/// constraints extension not critical), valid for a year, for signatures and key
/// encipherment (critical), with subject and authority key identifiers, naming
/// `domain` as its common name and its DNS name.
pub fn leaf_profile(domain: &str) -> (r: CertProfile)
    ensures
        r.key_bits == RSA_KEY_BITS,
        r.version == X509_V3,
        r.subject_view() == subject_for(domain@),
        r.issuer == Issuer::SigningCa,
        r.digest == Digest::Sha256,
        r.serial_bits == SERIAL_BITS,
        r.serial_top_bit_set,
        r.valid_days == LEAF_VALID_DAYS,
        !r.is_ca,
        !r.constraints_critical,
        r.usage_critical,
        r.has_subject_key_id,
        r.key_usage == (KeyUsages {
            key_cert_sign: false,
            crl_sign: false,
            digital_signature: true,
            non_repudiation: true,
            key_encipherment: true,
        }),
        r.names_issuer_key,
        r.san_dns matches Some(d) && d@ == domain@,
{
    CertProfile {
        key_bits: RSA_KEY_BITS,
        version: X509_V3,
        subject: subject(domain),
        issuer: Issuer::SigningCa,
        digest: Digest::Sha256,
        serial_bits: SERIAL_BITS,
        serial_top_bit_set: true,
        valid_days: LEAF_VALID_DAYS,
        is_ca: false,
        constraints_critical: false,
        usage_critical: true,
        has_subject_key_id: true,
        key_usage: KeyUsages {
            key_cert_sign: false,
            crl_sign: false,
            digital_signature: true,
            non_repudiation: true,
            key_encipherment: true,
        },
        names_issuer_key: true,
        san_dns: Some(domain.to_owned()),
    }
}

} // verus!
