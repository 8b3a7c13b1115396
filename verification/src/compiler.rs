//! The assembler: one textual line `OPCODE_NAME arg1 arg2 arg3` becomes one
//! 32-byte binary instruction. Missing trailing arguments default to 0, more
//! than three arguments is an error, and an unknown opcode name maps to the
//! ILLEGAL sentinel.

use vstd::prelude::*;

use vstd::string::{StrSliceExecFns, StringExecFns};

use crate::error::VmError;
use crate::instruction::encode_spec;
use crate::opcode;

verus! {

/// The parts of a character string split at every single space, as Rust's
/// `split(" ")` produces them: consecutive spaces yield empty parts, and the
/// empty string yields one empty part.
pub open spec fn split_at_spaces(s: Seq<char>) -> Seq<Seq<char>>
    decreases s.len(),
{
    if s.len() == 0 {
        seq![Seq::<char>::empty()]
    } else if s[0] == ' ' {
        seq![Seq::<char>::empty()] + split_at_spaces(s.drop_first())
    } else {
        let rest = split_at_spaces(s.drop_first());
        seq![seq![s[0]] + rest[0]] + rest.drop_first()
    }
}

/// Splitting yields at least one part.
pub proof fn lemma_split_len(s: Seq<char>)
    ensures
        split_at_spaces(s).len() >= 1,
    decreases s.len(),
{
    if s.len() > 0 {
        lemma_split_len(s.drop_first());
    }
}

/// Where the first `j` characters hold no space, splitting takes them as the
/// first part and continues after the space that follows them, if any.
pub proof fn lemma_split_prefix(s: Seq<char>, j: int)
    requires
        0 <= j <= s.len(),
        forall|k: int| 0 <= k < j ==> s[k] != ' ',
        j < s.len() ==> s[j] == ' ',
    ensures
        j == s.len() ==> split_at_spaces(s) =~~= seq![s],
        j < s.len() ==> split_at_spaces(s) =~~= seq![s.take(j)] + split_at_spaces(
            s.skip(j + 1),
        ),
    decreases j + 1,
{
    lemma_split_len(s.drop_first());
    if j == 0 {
        if s.len() == 0 {
            assert(split_at_spaces(s) =~~= seq![s]);
        } else if j < s.len() {
            assert(s[0] == ' ');
            assert(s.take(0) =~= Seq::<char>::empty());
            assert(s.skip(1) =~= s.drop_first());
        }
    } else {
        assert(s[0] != ' ');
        let rest = split_at_spaces(s.drop_first());
        lemma_split_prefix(s.drop_first(), j - 1);
        if j == s.len() {
            assert(rest =~~= seq![s.drop_first()]);
            assert(seq![s[0]] + s.drop_first() =~= s);
            assert(split_at_spaces(s) =~~= seq![s]);
        } else {
            assert(rest =~~= seq![s.drop_first().take(j - 1)] + split_at_spaces(
                s.drop_first().skip(j),
            ));
            assert(seq![s[0]] + s.drop_first().take(j - 1) =~= s.take(j));
            assert(s.drop_first().skip(j) =~= s.skip(j + 1));
            assert(split_at_spaces(s) =~~= seq![s.take(j)] + split_at_spaces(s.skip(j + 1)));
        }
    }
}

/// Splits a line at every space.
fn split_line(s: &str) -> (parts: Vec<String>)
    ensures
        parts@.map_values(|p: String| p@) =~= split_at_spaces(s@),
        parts@.len() >= 1,
{
    let n = s.unicode_len();
    let mut parts: Vec<String> = Vec::new();
    let mut start: usize = 0;
    let mut i: usize = 0;
    proof {
        lemma_split_len(s@);
        assert(s@.skip(0) =~= s@);
        assert(parts@.map_values(|p: String| p@) + split_at_spaces(s@) =~~= split_at_spaces(s@));
    }
    #[verifier::loop_isolation(false)]
    while i < n
        invariant
            0 <= start <= i <= n,
            forall|k: int| start <= k < i ==> s@[k] != ' ',
            split_at_spaces(s@) =~~= parts@.map_values(|p: String| p@) + split_at_spaces(
                s@.skip(start as int),
            ),
        decreases n - i,
    {
        let c = s.get_char(i);
        if c == ' ' {
            let part = s.substring_char(start, i).to_owned();
            proof {
                lemma_split_prefix(s@.skip(start as int), i - start);
                assert(s@.skip(start as int).take(i - start) =~= s@.subrange(
                    start as int,
                    i as int,
                ));
                assert(s@.skip(start as int).skip(i - start + 1) =~= s@.skip(i + 1));
                assert((parts@.map_values(|p: String| p@)).push(part@) =~= parts@.push(
                    part,
                ).map_values(|p: String| p@));
            }
            parts.push(part);
            start = i + 1;
        }
        i = i + 1;
    }
    let part = s.substring_char(start, n).to_owned();
    proof {
        lemma_split_prefix(s@.skip(start as int), n - start);
        assert(s@.skip(start as int) =~= s@.subrange(start as int, n as int));
        assert((parts@.map_values(|p: String| p@)).push(part@) =~= parts@.push(part).map_values(
            |p: String| p@,
        ));
        assert(parts@.push(part).map_values(|p: String| p@) =~~= split_at_spaces(s@));
    }
    parts.push(part);
    parts
}

/// The `k`-th part of a split line, or the default literal `0` where the
/// line has fewer parts.
pub open spec fn part_or_zero(parts: Seq<Seq<char>>, k: int) -> Seq<char> {
    if 0 <= k < parts.len() {
        parts[k]
    } else {
        seq!['0']
    }
}

/// One assembler line, held as its four textual fields.
pub struct Instruction {
    pub opcode: String,
    pub arg1: String,
    pub arg2: String,
    pub arg3: String,
}

impl Instruction {
    /// Parses one line into its opcode name and three arguments. Missing
    /// trailing parts default to `0`; more than four parts is an error.
    pub fn from(instruction_str: String) -> (r: Result<Instruction, String>)
        ensures
            r is Ok <==> split_at_spaces(instruction_str@).len() <= 4,
            r matches Err(m) ==> m@ == "invalid number of parts in instruction"@,
            r matches Ok(ins) ==> {
                let parts = split_at_spaces(instruction_str@);
                &&& ins.opcode@ == part_or_zero(parts, 0)
                &&& ins.arg1@ == part_or_zero(parts, 1)
                &&& ins.arg2@ == part_or_zero(parts, 2)
                &&& ins.arg3@ == part_or_zero(parts, 3)
            },
    {
        let ghost spec_parts = split_at_spaces(instruction_str@);
        let mut parts = split_line(instruction_str.as_str());
        if parts.len() > 4 {
            return Err(String::from_str("invalid number of parts in instruction"));
        }
        proof {
            reveal_strlit("0");
            assert("0"@ =~= seq!['0']);
        }
        while parts.len() < 4
            invariant
                1 <= parts@.len() <= 4,
                spec_parts.len() <= parts@.len(),
                spec_parts.len() <= 4,
                "0"@ == seq!['0'],
                forall|k: int|
                    0 <= k < parts@.len() ==> (#[trigger] parts@[k])@ == part_or_zero(
                        spec_parts,
                        k,
                    ),
            decreases 4 - parts@.len(),
        {
            let zero = String::from_str("0");
            parts.push(zero);
        }
        let arg3 = match parts.pop() {
            Some(p) => p,
            None => {
                return Err(String::from_str("invalid number of parts in instruction"));
            },
        };
        let arg2 = match parts.pop() {
            Some(p) => p,
            None => {
                return Err(String::from_str("invalid number of parts in instruction"));
            },
        };
        let arg1 = match parts.pop() {
            Some(p) => p,
            None => {
                return Err(String::from_str("invalid number of parts in instruction"));
            },
        };
        let opcode = match parts.pop() {
            Some(p) => p,
            None => {
                return Err(String::from_str("invalid number of parts in instruction"));
            },
        };
        Ok(Instruction { opcode, arg1, arg2, arg3 })
    }

    /// Assembles the line into its 32-byte binary instruction. Each argument
    /// must be a decimal 64-bit unsigned integer; the opcode name maps
    /// through the catalogue, an unknown name to the ILLEGAL sentinel.
    pub fn to_byte_code(self) -> (r: Result<Vec<u8>, String>)
        ensures
            r is Ok <==> parses_u64(self.arg1@) && parses_u64(self.arg2@) && parses_u64(
                self.arg3@,
            ),
            r matches Err(m) ==> {
                ||| !parses_u64(self.arg1@) && m@ == "Invalid argument 1"@
                ||| parses_u64(self.arg1@) && !parses_u64(self.arg2@) && m@
                    == "Invalid argument 2"@
                ||| parses_u64(self.arg1@) && parses_u64(self.arg2@) && !parses_u64(self.arg3@)
                    && m@ == "Invalid argument 3"@
            },
            r matches Ok(bytes) ==> bytes@ == encode_spec(
                crate::instruction::Instruction {
                    opcode: opcode_for_name(self.opcode@),
                    arg1: (u64_string_val(self.arg1@) as u64),
                    arg2: (u64_string_val(self.arg2@) as u64),
                    arg3: (u64_string_val(self.arg3@) as u64),
                },
            ),
    {
        let opcode = string_to_opcode(self.opcode);
        let arg1: u64 = match parse_u64(self.arg1.as_str()) {
            Some(arg) => arg,
            None => {
                return Err(String::from_str("Invalid argument 1"));
            },
        };
        let arg2: u64 = match parse_u64(self.arg2.as_str()) {
            Some(arg) => arg,
            None => {
                return Err(String::from_str("Invalid argument 2"));
            },
        };
        let arg3: u64 = match parse_u64(self.arg3.as_str()) {
            Some(arg) => arg,
            None => {
                return Err(String::from_str("Invalid argument 3"));
            },
        };
        let ins = crate::instruction::Instruction { opcode, arg1, arg2, arg3 };
        Ok(ins.encode())
    }
}

/// Whether every character of a nonempty string is a decimal digit.
pub open spec fn dec_digits(s: Seq<char>) -> bool {
    s.len() > 0 && forall|i: int| 0 <= i < s.len() ==> 48 <= (#[trigger] s[i]) as u32 <= 57
}

/// The number a string of decimal digits denotes.
pub open spec fn dec_val(s: Seq<char>) -> nat
    decreases s.len(),
{
    if s.len() == 0 {
        0
    } else {
        (dec_val(s.drop_last()) * 10 + ((s.last() as u32) as int - 48)) as nat
    }
}

/// The digits of a textual unsigned integer: everything after one optional
/// leading plus sign.
pub open spec fn dec_body(s: Seq<char>) -> Seq<char> {
    if s.len() > 0 && s[0] == '+' {
        s.drop_first()
    } else {
        s
    }
}

/// Whether a string is a decimal 64-bit unsigned integer as `parse` reads
/// one: an optional plus sign, then digits, below two to the 64th.
pub open spec fn parses_u64(s: Seq<char>) -> bool {
    dec_digits(dec_body(s)) && dec_val(dec_body(s)) <= u64::MAX
}

/// The value of a textual unsigned integer.
pub open spec fn u64_string_val(s: Seq<char>) -> nat {
    dec_val(dec_body(s))
}

/// A longer digit string denotes at least as much as its prefix.
proof fn lemma_dec_val_prefix(s: Seq<char>, k: int)
    requires
        0 <= k <= s.len(),
        forall|j: int| k <= j < s.len() ==> 48 <= (#[trigger] s[j]) as u32 <= 57,
    ensures
        dec_val(s.take(k)) <= dec_val(s),
    decreases s.len() - k,
{
    if k < s.len() {
        lemma_dec_val_prefix(s, k + 1);
        assert(s.take(k + 1).drop_last() =~= s.take(k));
        assert(dec_val(s.take(k + 1)) == (dec_val(s.take(k)) * 10 + ((s.take(k + 1).last()
            as u32) as int - 48)) as nat);
    } else {
        assert(s.take(k) =~= s);
    }
}

/// Reads a decimal 64-bit unsigned integer, as `parse` would: an optional
/// plus sign, then digits; fails on anything else and on overflow.
pub fn parse_u64(s: &str) -> (r: Option<u64>)
    ensures
        r matches Some(v) ==> parses_u64(s@) && v == u64_string_val(s@),
        r is None ==> !parses_u64(s@),
{
    let n = s.unicode_len();
    let mut i: usize = 0;
    if n > 0 && s.get_char(0) == '+' {
        i = 1;
    }
    let ghost body = dec_body(s@);
    let ghost off = i as int;
    proof {
        assert(body =~= s@.skip(off));
    }
    if i == n {
        return None;
    }
    let mut acc: u64 = 0;
    proof {
        assert(body.take(0) =~= Seq::<char>::empty());
    }
    #[verifier::loop_isolation(false)]
    while i < n
        invariant
            off <= i <= n,
            acc == dec_val(body.take(i - off)),
            forall|k: int| 0 <= k < i - off ==> 48 <= (#[trigger] body[k]) as u32 <= 57,
        decreases n - i,
    {
        let c = s.get_char(i);
        let cu = c as u32;
        if cu < 48 || cu > 57 {
            proof {
                assert(body[i - off] == s@[i as int]);
                assert(!(48 <= body[i - off] as u32 <= 57));
                assert(!dec_digits(body));
            }
            return None;
        }
        let d: u64 = (cu - 48) as u64;
        let acc10 = match acc.checked_mul(10) {
            Some(x) => x,
            None => {
                proof {
                    assert(body.take(i - off + 1).drop_last() =~= body.take(i - off));
                    assert(body.take(i - off + 1).last() == body[i - off]);
                    assert(body[i - off] == s@[i as int]);
                    assert(dec_val(body.take(i - off + 1)) > u64::MAX);
                    if dec_digits(body) {
                        lemma_dec_val_prefix(body, i - off + 1);
                    }
                }
                return None;
            },
        };
        let acc2 = match acc10.checked_add(d) {
            Some(x) => x,
            None => {
                proof {
                    assert(body.take(i - off + 1).drop_last() =~= body.take(i - off));
                    assert(body.take(i - off + 1).last() == body[i - off]);
                    assert(body[i - off] == s@[i as int]);
                    assert(dec_val(body.take(i - off + 1)) > u64::MAX);
                    if dec_digits(body) {
                        lemma_dec_val_prefix(body, i - off + 1);
                    }
                }
                return None;
            },
        };
        proof {
            assert(body.take(i - off + 1).drop_last() =~= body.take(i - off));
            assert(body.take(i - off + 1).last() == body[i - off]);
        }
        acc = acc2;
        i = i + 1;
    }
    proof {
        assert(body.take(n - off) =~= body);
    }
    Some(acc)
}

/// The numeric code of an opcode name: the catalogue as a function of the
/// textual name, with the ILLEGAL sentinel for every unknown name.
pub open spec fn opcode_for_name(s: Seq<char>) -> u64 {
    if s == "NONE"@ {
        opcode::NONE
    } else if s == "NEW_BOOL"@ {
        opcode::NEW_BOOL
    } else if s == "NEW_U8"@ {
        opcode::NEW_U8
    } else if s == "NEW_U16"@ {
        opcode::NEW_U16
    } else if s == "NEW_U32"@ {
        opcode::NEW_U32
    } else if s == "NEW_U64"@ {
        opcode::NEW_U64
    } else if s == "EQUAL"@ {
        opcode::EQUAL
    } else if s == "NOT"@ {
        opcode::NOT
    } else if s == "AND"@ {
        opcode::AND
    } else if s == "OR"@ {
        opcode::OR
    } else if s == "LOAD_BOOL"@ {
        opcode::LOAD_BOOL
    } else if s == "LOAD_U8"@ {
        opcode::LOAD_U8
    } else if s == "LOAD_U16"@ {
        opcode::LOAD_U16
    } else if s == "LOAD_U32"@ {
        opcode::LOAD_U32
    } else if s == "LOAD_U64"@ {
        opcode::LOAD_U64
    } else if s == "STORE"@ {
        opcode::STORE
    } else if s == "ADD_U8"@ {
        opcode::ADD_U8
    } else if s == "ADD_U16"@ {
        opcode::ADD_U16
    } else if s == "ADD_U32"@ {
        opcode::ADD_U32
    } else if s == "ADD_U64"@ {
        opcode::ADD_U64
    } else if s == "SUB_U8"@ {
        opcode::SUB_U8
    } else if s == "SUB_U16"@ {
        opcode::SUB_U16
    } else if s == "SUB_U32"@ {
        opcode::SUB_U32
    } else if s == "SUB_U64"@ {
        opcode::SUB_U64
    } else if s == "DIV_U8"@ {
        opcode::DIV_U8
    } else if s == "DIV_U16"@ {
        opcode::DIV_U16
    } else if s == "DIV_U32"@ {
        opcode::DIV_U32
    } else if s == "DIV_U64"@ {
        opcode::DIV_U64
    } else if s == "MUL_U8"@ {
        opcode::MUL_U8
    } else if s == "MUL_U16"@ {
        opcode::MUL_U16
    } else if s == "MUL_U32"@ {
        opcode::MUL_U32
    } else if s == "MUL_U64"@ {
        opcode::MUL_U64
    } else if s == "PWR_U8"@ {
        opcode::PWR_U8
    } else if s == "PWR_U16"@ {
        opcode::PWR_U16
    } else if s == "PWR_U32"@ {
        opcode::PWR_U32
    } else if s == "PWR_U64"@ {
        opcode::PWR_U64
    } else {
        opcode::ILLEGAL
    }
}

/// Compares two strings character by character.
fn str_eq(a: &str, b: &str) -> (r: bool)
    ensures
        r == (a@ == b@),
{
    let na = a.unicode_len();
    let nb = b.unicode_len();
    if na != nb {
        return false;
    }
    let mut i: usize = 0;
    #[verifier::loop_isolation(false)]
    while i < na
        invariant
            i <= na,
            forall|k: int| 0 <= k < i ==> a@[k] == b@[k],
        decreases na - i,
    {
        if a.get_char(i) != b.get_char(i) {
            return false;
        }
        i = i + 1;
    }
    proof {
        assert(a@ =~= b@);
    }
    true
}

/// Maps an opcode name to its numeric code; an unknown name maps to the
/// ILLEGAL sentinel.
pub fn string_to_opcode(opcode: String) -> (r: u64)
    ensures
        r == opcode_for_name(opcode@),
{
    let s = opcode.as_str();
    if str_eq(s, "NONE") {
        opcode::NONE
    } else if str_eq(s, "NEW_BOOL") {
        opcode::NEW_BOOL
    } else if str_eq(s, "NEW_U8") {
        opcode::NEW_U8
    } else if str_eq(s, "NEW_U16") {
        opcode::NEW_U16
    } else if str_eq(s, "NEW_U32") {
        opcode::NEW_U32
    } else if str_eq(s, "NEW_U64") {
        opcode::NEW_U64
    } else if str_eq(s, "EQUAL") {
        opcode::EQUAL
    } else if str_eq(s, "NOT") {
        opcode::NOT
    } else if str_eq(s, "AND") {
        opcode::AND
    } else if str_eq(s, "OR") {
        opcode::OR
    } else if str_eq(s, "LOAD_BOOL") {
        opcode::LOAD_BOOL
    } else if str_eq(s, "LOAD_U8") {
        opcode::LOAD_U8
    } else if str_eq(s, "LOAD_U16") {
        opcode::LOAD_U16
    } else if str_eq(s, "LOAD_U32") {
        opcode::LOAD_U32
    } else if str_eq(s, "LOAD_U64") {
        opcode::LOAD_U64
    } else if str_eq(s, "STORE") {
        opcode::STORE
    } else if str_eq(s, "ADD_U8") {
        opcode::ADD_U8
    } else if str_eq(s, "ADD_U16") {
        opcode::ADD_U16
    } else if str_eq(s, "ADD_U32") {
        opcode::ADD_U32
    } else if str_eq(s, "ADD_U64") {
        opcode::ADD_U64
    } else if str_eq(s, "SUB_U8") {
        opcode::SUB_U8
    } else if str_eq(s, "SUB_U16") {
        opcode::SUB_U16
    } else if str_eq(s, "SUB_U32") {
        opcode::SUB_U32
    } else if str_eq(s, "SUB_U64") {
        opcode::SUB_U64
    } else if str_eq(s, "DIV_U8") {
        opcode::DIV_U8
    } else if str_eq(s, "DIV_U16") {
        opcode::DIV_U16
    } else if str_eq(s, "DIV_U32") {
        opcode::DIV_U32
    } else if str_eq(s, "DIV_U64") {
        opcode::DIV_U64
    } else if str_eq(s, "MUL_U8") {
        opcode::MUL_U8
    } else if str_eq(s, "MUL_U16") {
        opcode::MUL_U16
    } else if str_eq(s, "MUL_U32") {
        opcode::MUL_U32
    } else if str_eq(s, "MUL_U64") {
        opcode::MUL_U64
    } else if str_eq(s, "PWR_U8") {
        opcode::PWR_U8
    } else if str_eq(s, "PWR_U16") {
        opcode::PWR_U16
    } else if str_eq(s, "PWR_U32") {
        opcode::PWR_U32
    } else if str_eq(s, "PWR_U64") {
        opcode::PWR_U64
    } else {
        opcode::ILLEGAL
    }
}

} // verus!
