//! The command class catalog: the schema of Z-Wave command classes.
//!
//! Every value is held as the text that the descriptor gives.

use vstd::prelude::*;

verus! {

/// The command class catalog: device classes and command classes.
#[derive(Debug, Clone, Default)]
pub struct ZwClasses {
    pub version: String,
    pub text: Option<String>,
    pub bas_dev: Vec<BasDev>,
    pub gen_dev: Vec<GenDev>,
    pub cmd_class: Vec<CmdClass>,
}

/// A basic device class.
#[derive(Debug, Clone, Default)]
pub struct BasDev {
    pub key: String,
    pub name: String,
    pub help: String,
    pub comment: String,
}

/// A generic device class and its specific device classes.
#[derive(Debug, Clone, Default)]
pub struct GenDev {
    pub key: String,
    pub name: String,
    pub help: String,
    pub comment: Option<String>,
    pub text: Option<String>,
    pub spec_dev: Vec<SpecDev>,
}

/// A specific device class.
#[derive(Debug, Clone, Default)]
pub struct SpecDev {
    pub key: String,
    pub name: String,
    pub help: String,
    pub comment: Option<String>,
}

/// A command class: its key, version and commands.
#[derive(Debug, Clone, Default)]
pub struct CmdClass {
    pub key: String,
    pub version: String,
    pub name: String,
    pub help: String,
    pub comment: Option<String>,
    pub text: Option<String>,
    pub cmd: Option<Vec<Cmd>>,
}

/// A command of a command class and its children, in order.
#[derive(Debug, Clone, Default)]
pub struct Cmd {
    pub key: String,
    pub name: String,
    pub help: String,
    pub support_mode: Option<String>,
    pub comment: Option<String>,
    pub cmd_mask: Option<String>,
    pub text: Option<String>,
    pub children: Option<Vec<CmdClassCmdChild>>,
}

/// A parameter of a command.
#[derive(Debug, Clone, Default)]
pub struct CmdClassCmdParam {
    pub key: String,
    pub name: String,
    pub param_type: String,
    pub encaptype: Option<String>,
    pub comment: Option<String>,
    pub optionalmask: Option<String>,
    pub optionaloffs: Option<String>,
    pub cmd_mask: Option<String>,
    pub skipfield: Option<String>,
    pub text: Option<String>,
    pub variant: Option<CmdParamVariant>,
    pub bitflag: Option<Vec<CmdParamBitflag>>,
    pub bitfield: Option<Vec<CmdParamBitfield>>,
    pub fieldenum: Option<Vec<CmdClassCmdParamFieldenum>>,
    pub bitmask: Option<CmdParamBitmask>,
    pub param_const: Option<Vec<CmdParamConst>>,
    pub arrayattrib: Option<Arrayattrib>,
}

/// How long a parameter of variable size is.
#[derive(Debug, Clone, Default)]
pub struct CmdParamVariant {
    pub paramoffs: String,
    pub sizemask: String,
    pub is_ascii: Option<String>,
    pub sizechange: Option<String>,
    pub sizeoffs: Option<String>,
}

/// A named flag of a parameter.
#[derive(Debug, Clone, Default)]
pub struct CmdParamBitflag {
    pub key: String,
    pub flagname: String,
    pub flagmask: String,
}

/// A named bit field of a parameter.
#[derive(Debug, Clone, Default)]
pub struct CmdParamBitfield {
    pub key: String,
    pub fieldname: String,
    pub fieldmask: String,
    pub shifter: Option<String>,
}

/// A bit field of a parameter whose values have names.
#[derive(Debug, Clone, Default)]
pub struct CmdClassCmdParamFieldenum {
    pub key: String,
    pub fieldname: String,
    pub fieldmask: String,
    pub shifter: Option<String>,
    pub text: Option<String>,
    pub fieldenum: Vec<CmdParamFieldenumFieldenum>,
}

/// A named value of a bit field.
#[derive(Debug, Clone, Default)]
pub struct CmdParamFieldenumFieldenum {
    pub value: String,
    pub key: Option<String>,
}

/// How long a bitmask parameter is.
#[derive(Debug, Clone, Default)]
pub struct CmdParamBitmask {
    pub key: String,
    pub paramoffs: String,
    pub lenmask: String,
    pub len: Option<String>,
}

/// A named constant of a parameter.
#[derive(Debug, Clone, Default)]
pub struct CmdParamConst {
    pub key: String,
    pub flagname: String,
    pub flagmask: String,
}

/// Length and kind of an array parameter.
#[derive(Debug, Clone, Default)]
pub struct Arrayattrib {
    pub key: String,
    pub len: String,
    pub is_ascii: Option<String>,
}

/// A group of parameters that repeats.
#[derive(Debug, Clone, Default)]
pub struct CmdVariantGroup {
    pub key: String,
    pub name: String,
    pub param_offs: String,
    pub sizemask: String,
    pub sizeoffs: String,
    pub optionalmask: Option<String>,
    pub optionaloffs: Option<String>,
    pub moretofollowmask: Option<String>,
    pub moretofollowoffs: Option<String>,
    pub text: Option<String>,
    pub param: Vec<CmdVariantGroupParam>,
    pub variant_group: Option<VariantGroupVariantGroup>,
}

/// A parameter of a variant group.
#[derive(Debug, Clone, Default)]
pub struct CmdVariantGroupParam {
    pub key: String,
    pub name: String,
    pub param_type: String,
    pub encaptype: Option<String>,
    pub text: Option<String>,
    pub variant: Option<VariantGroupParamVariant>,
    pub param_const: Option<Vec<VariantGroupParamConst>>,
    pub bitfield: Option<Vec<VariantGroupParamBitfield>>,
    pub bitflag: Option<Vec<VariantGroupParamBitflag>>,
    pub multi_array: Option<Vec<MultiArray>>,
    pub bitmask: Option<VariantGroupParamBitmask>,
    pub fieldenum: Option<CmdVariantGroupParamFieldenum>,
}

/// How long a parameter of variable size in a variant group is.
#[derive(Debug, Clone, Default)]
pub struct VariantGroupParamVariant {
    pub paramoffs: String,
    pub sizemask: String,
    pub sizechange: Option<String>,
}

/// A named constant of a parameter of a variant group.
#[derive(Debug, Clone, Default)]
pub struct VariantGroupParamConst {
    pub key: String,
    pub flagname: String,
    pub flagmask: String,
}

/// A named bit field of a parameter of a variant group.
#[derive(Debug, Clone, Default)]
pub struct VariantGroupParamBitfield {
    pub key: String,
    pub fieldname: String,
    pub fieldmask: String,
    pub shifter: Option<String>,
}

/// A named flag of a parameter of a variant group.
#[derive(Debug, Clone, Default)]
pub struct VariantGroupParamBitflag {
    pub key: String,
    pub flagname: String,
    pub flagmask: String,
}

/// A table of flags whose meaning another parameter selects.
#[derive(Debug, Clone, Default)]
pub struct MultiArray {
    pub text: Option<String>,
    pub paramdescloc: Option<Paramdescloc>,
    pub bitflag: Option<Vec<ParamMultiArrayBitflag>>,
}

/// Where the parameter stands that selects the meaning of a table.
#[derive(Debug, Clone, Default)]
pub struct Paramdescloc {
    pub key: String,
    pub param: String,
    pub paramdesc: String,
    pub paramstart: String,
}

/// A named flag of a table.
#[derive(Debug, Clone, Default)]
pub struct ParamMultiArrayBitflag {
    pub key: String,
    pub flagname: String,
    pub flagmask: String,
}

/// How long a bitmask parameter of a variant group is.
#[derive(Debug, Clone, Default)]
pub struct VariantGroupParamBitmask {
    pub key: String,
    pub paramoffs: String,
    pub lenmask: String,
    pub lenoffs: String,
}

/// A bit field of a parameter of a variant group whose values have names.
#[derive(Debug, Clone, Default)]
pub struct CmdVariantGroupParamFieldenum {
    pub key: String,
    pub fieldname: String,
    pub fieldmask: String,
    pub shifter: String,
    pub text: Option<String>,
    pub fieldenum: Vec<VariantGroupParamFieldenumFieldenum>,
}

/// A named value of a bit field of a variant group.
#[derive(Debug, Clone, Default)]
pub struct VariantGroupParamFieldenumFieldenum {
    pub value: String,
}

/// A variant group within a variant group.
#[derive(Debug, Clone, Default)]
pub struct VariantGroupVariantGroup {
    pub key: String,
    pub name: String,
    pub param_offs: String,
    pub sizemask: String,
    pub sizeoffs: String,
    pub text: Option<String>,
    pub param: VariantGroupVariantGroupParam,
}

/// The parameter of a variant group within a variant group.
#[derive(Debug, Clone, Default)]
pub struct VariantGroupVariantGroupParam {
    pub key: String,
    pub name: String,
    pub param_type: String,
}

/// A child of a command: a parameter or a variant group.
#[derive(Debug, Clone)]
pub enum CmdClassCmdChild {
    Param(CmdClassCmdParam),
    VariantGroup(CmdVariantGroup),
}

} // verus!
