//! The fixed register alias table: numeric names `$0` through `$31`, the
//! MIPS symbolic aliases, and the special registers `$pc`, `$hi` and `$lo`.

use crate::text::str_eq;
use crate::virtual_machine_interface::RegisterKind;
use vstd::prelude::*;

verus! {

/// The register kind a source-level name denotes, if any.
pub open spec fn spec_valid_register(s: Seq<char>) -> Option<RegisterKind> {
    if s == "$0"@ {
        Some(RegisterKind::Reg00)
    } else if s == "$1"@ {
        Some(RegisterKind::Reg01)
    } else if s == "$2"@ {
        Some(RegisterKind::Reg02)
    } else if s == "$3"@ {
        Some(RegisterKind::Reg03)
    } else if s == "$4"@ {
        Some(RegisterKind::Reg04)
    } else if s == "$5"@ {
        Some(RegisterKind::Reg05)
    } else if s == "$6"@ {
        Some(RegisterKind::Reg06)
    } else if s == "$7"@ {
        Some(RegisterKind::Reg07)
    } else if s == "$8"@ {
        Some(RegisterKind::Reg08)
    } else if s == "$9"@ {
        Some(RegisterKind::Reg09)
    } else if s == "$10"@ {
        Some(RegisterKind::Reg10)
    } else if s == "$11"@ {
        Some(RegisterKind::Reg11)
    } else if s == "$12"@ {
        Some(RegisterKind::Reg12)
    } else if s == "$13"@ {
        Some(RegisterKind::Reg13)
    } else if s == "$14"@ {
        Some(RegisterKind::Reg14)
    } else if s == "$15"@ {
        Some(RegisterKind::Reg15)
    } else if s == "$16"@ {
        Some(RegisterKind::Reg16)
    } else if s == "$17"@ {
        Some(RegisterKind::Reg17)
    } else if s == "$18"@ {
        Some(RegisterKind::Reg18)
    } else if s == "$19"@ {
        Some(RegisterKind::Reg19)
    } else if s == "$20"@ {
        Some(RegisterKind::Reg20)
    } else if s == "$21"@ {
        Some(RegisterKind::Reg21)
    } else if s == "$22"@ {
        Some(RegisterKind::Reg22)
    } else if s == "$23"@ {
        Some(RegisterKind::Reg23)
    } else if s == "$24"@ {
        Some(RegisterKind::Reg24)
    } else if s == "$25"@ {
        Some(RegisterKind::Reg25)
    } else if s == "$26"@ {
        Some(RegisterKind::Reg26)
    } else if s == "$27"@ {
        Some(RegisterKind::Reg27)
    } else if s == "$28"@ {
        Some(RegisterKind::Reg28)
    } else if s == "$29"@ {
        Some(RegisterKind::Reg29)
    } else if s == "$30"@ {
        Some(RegisterKind::Reg30)
    } else if s == "$31"@ {
        Some(RegisterKind::Reg31)
    } else if s == "$zero"@ {
        Some(RegisterKind::Reg00)
    } else if s == "$at"@ {
        Some(RegisterKind::Reg01)
    } else if s == "$v0"@ {
        Some(RegisterKind::Reg02)
    } else if s == "$v1"@ {
        Some(RegisterKind::Reg03)
    } else if s == "$a0"@ {
        Some(RegisterKind::Reg04)
    } else if s == "$a1"@ {
        Some(RegisterKind::Reg05)
    } else if s == "$a2"@ {
        Some(RegisterKind::Reg06)
    } else if s == "$a3"@ {
        Some(RegisterKind::Reg07)
    } else if s == "$t0"@ {
        Some(RegisterKind::Reg08)
    } else if s == "$t1"@ {
        Some(RegisterKind::Reg09)
    } else if s == "$t2"@ {
        Some(RegisterKind::Reg10)
    } else if s == "$t3"@ {
        Some(RegisterKind::Reg11)
    } else if s == "$t4"@ {
        Some(RegisterKind::Reg12)
    } else if s == "$t5"@ {
        Some(RegisterKind::Reg13)
    } else if s == "$t6"@ {
        Some(RegisterKind::Reg14)
    } else if s == "$t7"@ {
        Some(RegisterKind::Reg15)
    } else if s == "$s0"@ {
        Some(RegisterKind::Reg16)
    } else if s == "$s1"@ {
        Some(RegisterKind::Reg17)
    } else if s == "$s2"@ {
        Some(RegisterKind::Reg18)
    } else if s == "$s3"@ {
        Some(RegisterKind::Reg19)
    } else if s == "$s4"@ {
        Some(RegisterKind::Reg20)
    } else if s == "$s5"@ {
        Some(RegisterKind::Reg21)
    } else if s == "$s6"@ {
        Some(RegisterKind::Reg22)
    } else if s == "$s7"@ {
        Some(RegisterKind::Reg23)
    } else if s == "$t8"@ {
        Some(RegisterKind::Reg24)
    } else if s == "$t9"@ {
        Some(RegisterKind::Reg25)
    } else if s == "$k0"@ {
        Some(RegisterKind::Reg26)
    } else if s == "$k1"@ {
        Some(RegisterKind::Reg27)
    } else if s == "$gp"@ {
        Some(RegisterKind::Reg28)
    } else if s == "$sp"@ {
        Some(RegisterKind::Reg29)
    } else if s == "$fp"@ {
        Some(RegisterKind::Reg30)
    } else if s == "$ra"@ {
        Some(RegisterKind::Reg31)
    } else if s == "$pc"@ {
        Some(RegisterKind::RegPC)
    } else if s == "$hi"@ {
        Some(RegisterKind::RegHi)
    } else if s == "$lo"@ {
        Some(RegisterKind::RegLo)
    } else {
        None
    }
}

/// Resolves a register name through the fixed alias table: `$N` numeric
/// forms, `$zero`/`$at`/`$v0`..`$ra` symbolic forms, and `$pc`/`$hi`/`$lo`.
pub fn get_valid_register(reg: &str) -> (r: Option<RegisterKind>)
    ensures
        r == spec_valid_register(reg@),
{
    if str_eq(reg, "$0") {
        Some(RegisterKind::Reg00)
    } else if str_eq(reg, "$1") {
        Some(RegisterKind::Reg01)
    } else if str_eq(reg, "$2") {
        Some(RegisterKind::Reg02)
    } else if str_eq(reg, "$3") {
        Some(RegisterKind::Reg03)
    } else if str_eq(reg, "$4") {
        Some(RegisterKind::Reg04)
    } else if str_eq(reg, "$5") {
        Some(RegisterKind::Reg05)
    } else if str_eq(reg, "$6") {
        Some(RegisterKind::Reg06)
    } else if str_eq(reg, "$7") {
        Some(RegisterKind::Reg07)
    } else if str_eq(reg, "$8") {
        Some(RegisterKind::Reg08)
    } else if str_eq(reg, "$9") {
        Some(RegisterKind::Reg09)
    } else if str_eq(reg, "$10") {
        Some(RegisterKind::Reg10)
    } else if str_eq(reg, "$11") {
        Some(RegisterKind::Reg11)
    } else if str_eq(reg, "$12") {
        Some(RegisterKind::Reg12)
    } else if str_eq(reg, "$13") {
        Some(RegisterKind::Reg13)
    } else if str_eq(reg, "$14") {
        Some(RegisterKind::Reg14)
    } else if str_eq(reg, "$15") {
        Some(RegisterKind::Reg15)
    } else if str_eq(reg, "$16") {
        Some(RegisterKind::Reg16)
    } else if str_eq(reg, "$17") {
        Some(RegisterKind::Reg17)
    } else if str_eq(reg, "$18") {
        Some(RegisterKind::Reg18)
    } else if str_eq(reg, "$19") {
        Some(RegisterKind::Reg19)
    } else if str_eq(reg, "$20") {
        Some(RegisterKind::Reg20)
    } else if str_eq(reg, "$21") {
        Some(RegisterKind::Reg21)
    } else if str_eq(reg, "$22") {
        Some(RegisterKind::Reg22)
    } else if str_eq(reg, "$23") {
        Some(RegisterKind::Reg23)
    } else if str_eq(reg, "$24") {
        Some(RegisterKind::Reg24)
    } else if str_eq(reg, "$25") {
        Some(RegisterKind::Reg25)
    } else if str_eq(reg, "$26") {
        Some(RegisterKind::Reg26)
    } else if str_eq(reg, "$27") {
        Some(RegisterKind::Reg27)
    } else if str_eq(reg, "$28") {
        Some(RegisterKind::Reg28)
    } else if str_eq(reg, "$29") {
        Some(RegisterKind::Reg29)
    } else if str_eq(reg, "$30") {
        Some(RegisterKind::Reg30)
    } else if str_eq(reg, "$31") {
        Some(RegisterKind::Reg31)
    } else if str_eq(reg, "$zero") {
        Some(RegisterKind::Reg00)
    } else if str_eq(reg, "$at") {
        Some(RegisterKind::Reg01)
    } else if str_eq(reg, "$v0") {
        Some(RegisterKind::Reg02)
    } else if str_eq(reg, "$v1") {
        Some(RegisterKind::Reg03)
    } else if str_eq(reg, "$a0") {
        Some(RegisterKind::Reg04)
    } else if str_eq(reg, "$a1") {
        Some(RegisterKind::Reg05)
    } else if str_eq(reg, "$a2") {
        Some(RegisterKind::Reg06)
    } else if str_eq(reg, "$a3") {
        Some(RegisterKind::Reg07)
    } else if str_eq(reg, "$t0") {
        Some(RegisterKind::Reg08)
    } else if str_eq(reg, "$t1") {
        Some(RegisterKind::Reg09)
    } else if str_eq(reg, "$t2") {
        Some(RegisterKind::Reg10)
    } else if str_eq(reg, "$t3") {
        Some(RegisterKind::Reg11)
    } else if str_eq(reg, "$t4") {
        Some(RegisterKind::Reg12)
    } else if str_eq(reg, "$t5") {
        Some(RegisterKind::Reg13)
    } else if str_eq(reg, "$t6") {
        Some(RegisterKind::Reg14)
    } else if str_eq(reg, "$t7") {
        Some(RegisterKind::Reg15)
    } else if str_eq(reg, "$s0") {
        Some(RegisterKind::Reg16)
    } else if str_eq(reg, "$s1") {
        Some(RegisterKind::Reg17)
    } else if str_eq(reg, "$s2") {
        Some(RegisterKind::Reg18)
    } else if str_eq(reg, "$s3") {
        Some(RegisterKind::Reg19)
    } else if str_eq(reg, "$s4") {
        Some(RegisterKind::Reg20)
    } else if str_eq(reg, "$s5") {
        Some(RegisterKind::Reg21)
    } else if str_eq(reg, "$s6") {
        Some(RegisterKind::Reg22)
    } else if str_eq(reg, "$s7") {
        Some(RegisterKind::Reg23)
    } else if str_eq(reg, "$t8") {
        Some(RegisterKind::Reg24)
    } else if str_eq(reg, "$t9") {
        Some(RegisterKind::Reg25)
    } else if str_eq(reg, "$k0") {
        Some(RegisterKind::Reg26)
    } else if str_eq(reg, "$k1") {
        Some(RegisterKind::Reg27)
    } else if str_eq(reg, "$gp") {
        Some(RegisterKind::Reg28)
    } else if str_eq(reg, "$sp") {
        Some(RegisterKind::Reg29)
    } else if str_eq(reg, "$fp") {
        Some(RegisterKind::Reg30)
    } else if str_eq(reg, "$ra") {
        Some(RegisterKind::Reg31)
    } else if str_eq(reg, "$pc") {
        Some(RegisterKind::RegPC)
    } else if str_eq(reg, "$hi") {
        Some(RegisterKind::RegHi)
    } else if str_eq(reg, "$lo") {
        Some(RegisterKind::RegLo)
    } else {
        None
    }
}

} // verus!
