//! The command view of an APDU and the length rules by which raw bytes parse into it.
use vstd::prelude::*;

verus! {

/// A parsed command: header bytes, data field and expected response length.
#[derive(Clone, Debug)]
pub struct Command {
    pub class: u8,
    pub instruction: u8,
    pub p1: u8,
    pub p2: u8,
    pub data: Vec<u8>,
    /// Expected response length (Ne); 0 when the command has no Le field.
    pub le: usize,
    /// Whether the extended (three byte Lc / two byte Le) form was used.
    pub extended: bool,
}

/// Mathematical model of a parsed command.
pub struct Apdu {
    pub class: u8,
    pub instruction: u8,
    pub p1: u8,
    pub p2: u8,
    pub data: Seq<u8>,
    pub le: nat,
    pub extended: bool,
}

impl View for Command {
    type V = Apdu;

    open spec fn view(&self) -> Apdu {
        Apdu {
            class: self.class,
            instruction: self.instruction,
            p1: self.p1,
            p2: self.p2,
            data: self.data@,
            le: self.le as nat,
            extended: self.extended,
        }
    }
}

impl Command {
    /// The class byte (CLA).
    pub fn class(&self) -> (r: u8)
        ensures
            r == self.class,
    {
        self.class
    }

    /// The instruction byte (INS).
    pub fn instruction(&self) -> (r: u8)
        ensures
            r == self.instruction,
    {
        self.instruction
    }

    /// The data field.
    pub fn data(&self) -> (r: &[u8])
        ensures
            r@ == self.data@,
    {
        self.data.as_slice()
    }

    /// The expected response length (Ne), 0 when absent.
    pub fn expected(&self) -> (r: usize)
        ensures
            r == self.le,
    {
        self.le
    }
}

/// The lengths read from the body (the bytes after the four header bytes).
pub struct Lengths {
    pub lc: nat,
    pub le: nat,
    pub offset: nat,
    pub extended: bool,
}

/// Big-endian value of two bytes.
pub open spec fn be16(hi: u8, lo: u8) -> nat {
    hi as nat * 256 + lo as nat
}

/// A length byte of zero stands for the maximum, `zero`.
pub open spec fn or_max(v: nat, zero: nat) -> nat {
    if v == 0 {
        zero
    } else {
        v
    }
}

/// The ISO 7816-4 cases 1, 2S, 3S, 4S, 2E, 3E and 4E, told apart by the body's
/// length; `None` where the body fits none of them.
pub open spec fn parse_lengths(body: Seq<u8>) -> Option<Lengths> {
    let l = body.len();
    if l == 0 {
        Some(Lengths { lc: 0, le: 0, offset: 0, extended: false })
    } else {
        let b1 = body[0] as nat;
        if l == 1 {
            Some(Lengths { lc: 0, le: or_max(b1, 256), offset: 0, extended: false })
        } else if b1 != 0 && l == 1 + b1 {
            Some(Lengths { lc: b1, le: 0, offset: 1, extended: false })
        } else if b1 != 0 && l == 2 + b1 {
            Some(Lengths { lc: b1, le: or_max(body[l - 1] as nat, 256), offset: 1, extended: false })
        } else if b1 != 0 || l < 3 {
            None
        } else if l == 3 {
            Some(Lengths { lc: 0, le: or_max(be16(body[1], body[2]), 65536), offset: 0, extended: true })
        } else {
            let lc = be16(body[1], body[2]);
            if l == 3 + lc {
                Some(Lengths { lc, le: 0, offset: 3, extended: true })
            } else if l == 5 + lc {
                Some(Lengths {
                    lc,
                    le: or_max(be16(body[l - 2], body[l - 1]), 65536),
                    offset: 3,
                    extended: true,
                })
            } else {
                None
            }
        }
    }
}

/// What a raw APDU parses to: `None` if it is shorter than its header, if its
/// class byte is the invalid `FF`, or if its body fits no length case.
pub open spec fn parse_spec(raw: Seq<u8>) -> Option<Apdu> {
    if raw.len() < 4 || raw[0] == 0xff {
        None
    } else {
        let body = raw.subrange(4, raw.len() as int);
        match parse_lengths(body) {
            None => None,
            Some(n) => Some(
                Apdu {
                    class: raw[0],
                    instruction: raw[1],
                    p1: raw[2],
                    p2: raw[3],
                    data: body.subrange(n.offset as int, (n.offset + n.lc) as int),
                    le: n.le,
                    extended: n.extended,
                },
            ),
        }
    }
}

/// Relies on iso7816's `CommandView::try_from`, which checks the class byte
/// (only `FF` is refused) and reads the body by the cases of `parse_lengths`.
#[verifier::external_body]
pub(crate) fn parse(raw: &[u8]) -> (r: Option<Command>)
    ensures
        r.is_some() == parse_spec(raw@).is_some(),
        r.is_some() ==> r.unwrap()@ == parse_spec(raw@).unwrap(),
{
    match iso7816::command::CommandView::try_from(raw) {
        Ok(v) => Some(Command {
            class: v.class().into_inner(),
            instruction: v.instruction().into(),
            p1: v.p1,
            p2: v.p2,
            data: v.data().to_vec(),
            le: v.expected(),
            extended: v.extended,
        }),
        Err(_) => None,
    }
}

} // verus!
