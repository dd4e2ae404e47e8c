use vstd::prelude::*;

verus! {

/// The record type asked for by a DNS question.
#[derive(Clone, Copy, Debug, PartialEq, Eq, Structural)]
pub enum QType {
    A,
    NS,
    CNAME,
    SOA,
    PTR,
    MX,
    TXT,
    AAAA,
    SRV,
    DNAME,
    OPT,
    DS,
    RRSIG,
    DNSKEY,
    SSHFP,
    SPF,
    CAA,
}

/// The wire code of each record type.
pub open spec fn q_type_code(t: QType) -> u16 {
    match t {
        QType::A => 1,
        QType::NS => 2,
        QType::CNAME => 5,
        QType::SOA => 6,
        QType::PTR => 12,
        QType::MX => 15,
        QType::TXT => 16,
        QType::AAAA => 28,
        QType::SRV => 33,
        QType::DNAME => 39,
        QType::OPT => 41,
        QType::DS => 43,
        QType::RRSIG => 46,
        QType::DNSKEY => 48,
        QType::SSHFP => 53,
        QType::SPF => 99,
        QType::CAA => 257,
    }
}

/// Whether some record type has wire code `u`.
pub open spec fn is_known_q_type(u: u16) -> bool {
    u == 1 || u == 2 || u == 5 || u == 6 || u == 12 || u == 15 || u == 16 || u == 28 || u == 33
        || u == 39 || u == 41 || u == 43 || u == 46 || u == 48 || u == 53 || u == 99 || u == 257
}

impl QType {
    /// The record type with wire code `u`, if there is one.
    pub fn from_u16(u: u16) -> (r: Option<Self>)
        ensures
            r.is_some() <==> is_known_q_type(u),
            r matches Some(t) ==> q_type_code(t) == u,
    {
        let r = match u {
            1 => Some(QType::A),
            2 => Some(QType::NS),
            5 => Some(QType::CNAME),
            6 => Some(QType::SOA),
            12 => Some(QType::PTR),
            15 => Some(QType::MX),
            16 => Some(QType::TXT),
            28 => Some(QType::AAAA),
            33 => Some(QType::SRV),
            39 => Some(QType::DNAME),
            41 => Some(QType::OPT),
            43 => Some(QType::DS),
            46 => Some(QType::RRSIG),
            48 => Some(QType::DNSKEY),
            53 => Some(QType::SSHFP),
            99 => Some(QType::SPF),
            257 => Some(QType::CAA),
            _ => None,
        };
        r
    }

    /// The wire code of this record type.
    pub fn to_u16(&self) -> (r: u16)
        ensures
            r == q_type_code(*self),
    {
        match self {
            QType::A => 1,
            QType::NS => 2,
            QType::CNAME => 5,
            QType::SOA => 6,
            QType::PTR => 12,
            QType::MX => 15,
            QType::TXT => 16,
            QType::AAAA => 28,
            QType::SRV => 33,
            QType::DNAME => 39,
            QType::OPT => 41,
            QType::DS => 43,
            QType::RRSIG => 46,
            QType::DNSKEY => 48,
            QType::SSHFP => 53,
            QType::SPF => 99,
            QType::CAA => 257,
        }
    }
}

} // verus!
