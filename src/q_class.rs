use vstd::prelude::*;

verus! {

/// The class of a DNS question.
#[derive(Clone, Copy, Debug, PartialEq, Eq, Structural)]
pub enum QClass {
    IN,
    CS,
    CH,
    HS,
}

/// The wire code of each class.
pub open spec fn q_class_code(c: QClass) -> u16 {
    match c {
        QClass::IN => 1,
        QClass::CS => 2,
        QClass::CH => 3,
        QClass::HS => 4,
    }
}

impl QClass {
    /// The class with wire code `u`, if there is one.
    pub fn from_u16(u: u16) -> (r: Option<Self>)
        ensures
            r.is_some() <==> 1 <= u <= 4,
            r matches Some(c) ==> q_class_code(c) == u,
    {
        match u {
            1 => Some(QClass::IN),
            2 => Some(QClass::CS),
            3 => Some(QClass::CH),
            4 => Some(QClass::HS),
            _ => None,
        }
    }

    /// The wire code of this class.
    pub fn to_u16(&self) -> (r: u16)
        ensures
            r == q_class_code(*self),
    {
        match self {
            QClass::IN => 1,
            QClass::CS => 2,
            QClass::CH => 3,
            QClass::HS => 4,
        }
    }
}

} // verus!
