//! Ram provider: parsing `free -b` output, the used/total percentage, icon,
//! and tuple building.
use vstd::prelude::*;
use vstd::string::*;

use crate::daemon::{pairs_view, DaemonItem, DaemonMessage, DaemonReply};
use crate::error::DaemonError;
use crate::text::{
    dec_body, dec_str, dec_val, parse_u64, spec_split, spec_split_ws, spec_trim_start_matches,
    split_char, split_ws, trim_start_matches, u64_to_string, valid_u64_str,
};

verus! {

/// One ram field named on the command line.
#[derive(Debug, Clone, Copy)]
pub enum RamGetCommands {
    Total,
    Used,
    Percent,
    Icon,
}

/// One addressable field of the ram provider.
#[derive(Debug, Clone, Copy, PartialEq, Eq, Structural)]
pub enum RamItem {
    Total,
    Used,
    Percent,
    Icon,
    All,
}

/// The whitespace tokens of the memory line of `free -b` output: its second
/// line, with a leading `Mem:` stripped.
pub open spec fn spec_ram_tokens(out: Seq<char>) -> Seq<Seq<char>> {
    spec_split_ws(spec_trim_start_matches(spec_split(out, '\n')[1], "Mem:"@))
}

/// Whether the output has a memory line at all.
pub open spec fn spec_ram_has_line(out: Seq<char>) -> bool {
    spec_split(out, '\n').len() >= 2
}

/// Whether token `i` of the memory line is a readable `u64`, and its value.
pub open spec fn spec_ram_field_ok(out: Seq<char>, i: int) -> bool {
    &&& spec_ram_has_line(out)
    &&& spec_ram_tokens(out).len() > i
    &&& valid_u64_str(spec_ram_tokens(out)[i])
}

/// The value of token `i` of the memory line.
pub open spec fn spec_ram_field(out: Seq<char>, i: int) -> int {
    dec_val(dec_body(spec_ram_tokens(out)[i]))
}

/// The used percentage, rounded down, saturated into `u64`; total zero maps
/// to zero for an idle reading and to the maximum otherwise.
pub open spec fn spec_ram_percent(used: u64, total: u64) -> u64 {
    if total == 0 {
        if used == 0 {
            0u64
        } else {
            u64::MAX
        }
    } else if used as int * 100 / total as int > u64::MAX {
        u64::MAX
    } else {
        (used as int * 100 / total as int) as u64
    }
}

/// Whether the whole ram reading parses.
pub open spec fn spec_ram_ok(out: Seq<char>) -> bool {
    spec_ram_field_ok(out, 0) && spec_ram_field_ok(out, 1)
}

/// The ram tuple list a readable output yields.
pub open spec fn spec_ram_tuples(out: Seq<char>) -> Seq<(Seq<char>, Seq<char>)> {
    seq![
        ("total"@, dec_str(spec_ram_field(out, 0))),
        ("used"@, dec_str(spec_ram_field(out, 1))),
        (
            "percent"@,
            dec_str(
                spec_ram_percent(
                    spec_ram_field(out, 1) as u64,
                    spec_ram_field(out, 0) as u64,
                ) as int,
            ),
        ),
        ("icon"@, "nvidia-ram"@ + crate::ICON_END@ + crate::ICON_END@),
    ]
}

pub struct Ram;

impl Ram {
    /// The memory-line tokens of one `free -b` output.
    pub fn get_output_split(output: &str) -> (r: Result<Vec<String>, DaemonError>)
        ensures
            r is Ok <==> spec_ram_has_line(output@),
            r matches Ok(v) ==> v.deep_view() == spec_ram_tokens(output@),
            r matches Err(e) ==> e is ParseError,
    {
        let lines = split_char(output, '\n');
        if lines.len() < 2 {
            return Err(DaemonError::ParseError(String::from_str(output)));
        }
        proof {
            assert(lines@[1]@ == spec_split(output@, '\n')[1]);
        }
        let stripped = trim_start_matches(lines[1].as_str(), "Mem:");
        Ok(split_ws(stripped.as_str()))
    }

    /// Reads total, used and percent out of one `free -b` output.
    pub fn get(output: &str) -> (r: Result<(u64, u64, u64), DaemonError>)
        ensures
            r is Ok <==> spec_ram_ok(output@),
            r matches Ok(t) ==> {
                &&& t.0 == spec_ram_field(output@, 0)
                &&& t.1 == spec_ram_field(output@, 1)
                &&& t.2 == spec_ram_percent(t.1, t.0)
            },
    {
        let total = Self::get_total(output)?;
        let used = Self::get_used(output)?;
        let percent = Self::get_percent_from_used_total(used, total);
        Ok((total, used, percent))
    }

    /// Reads the total bytes: the first memory-line token.
    pub fn get_total(output: &str) -> (r: Result<u64, DaemonError>)
        ensures
            r is Ok <==> spec_ram_field_ok(output@, 0),
            r matches Ok(v) ==> v == spec_ram_field(output@, 0),
    {
        let toks = Self::get_output_split(output)?;
        if toks.len() == 0 {
            return Err(DaemonError::ParseError(String::new()));
        }
        proof {
            assert(toks@[0]@ == spec_ram_tokens(output@)[0]);
        }
        parse_u64(toks[0].as_str())
    }

    /// Reads the used bytes: the second memory-line token.
    pub fn get_used(output: &str) -> (r: Result<u64, DaemonError>)
        ensures
            r is Ok <==> spec_ram_field_ok(output@, 1),
            r matches Ok(v) ==> v == spec_ram_field(output@, 1),
    {
        let toks = Self::get_output_split(output)?;
        if toks.len() < 2 {
            return Err(DaemonError::ParseError(String::new()));
        }
        proof {
            assert(toks@[1]@ == spec_ram_tokens(output@)[1]);
        }
        parse_u64(toks[1].as_str())
    }

    /// The used percentage of the total, rounded down.
    pub fn get_percent_from_used_total(used: u64, total: u64) -> (r: u64)
        ensures
            r == spec_ram_percent(used, total),
    {
        if total == 0 {
            if used == 0 {
                0
            } else {
                u64::MAX
            }
        } else {
            let wide: u128 = (used as u128) * 100 / (total as u128);
            proof {
                assert(used as int * 100 / total as int == wide) by (nonlinear_arith)
                    requires
                        wide == used as u128 as int * 100 / (total as u128 as int),
                        total > 0,
                ;
            }
            if wide > u64::MAX as u128 {
                u64::MAX
            } else {
                wide as u64
            }
        }
    }

    /// Reads the used percentage out of one `free -b` output.
    pub fn get_percent(output: &str) -> (r: Result<u64, DaemonError>)
        ensures
            r is Ok <==> spec_ram_ok(output@),
            r matches Ok(v) ==> v == spec_ram_percent(
                spec_ram_field(output@, 1) as u64,
                spec_ram_field(output@, 0) as u64,
            ),
    {
        let total = Self::get_total(output)?;
        let used = Self::get_used(output)?;
        Ok(Self::get_percent_from_used_total(used, total))
    }

    /// The fixed ram icon name.
    pub fn get_icon() -> (r: String)
        ensures
            r@ == "nvidia-ram"@ + crate::ICON_END@,
    {
        String::from_str("nvidia-ram").concat(crate::ICON_END)
    }

    /// The name/value pairs of the whole ram state, in their fixed order.
    pub fn get_tuples(output: &str) -> (r: Result<Vec<(String, String)>, DaemonError>)
        ensures
            r is Ok <==> spec_ram_ok(output@),
            r matches Ok(v) ==> pairs_view(v@) =~~= spec_ram_tuples(output@),
    {
        let (total, used, percent) = Self::get(output)?;
        let icon = Self::get_icon();
        let mut v: Vec<(String, String)> = Vec::new();
        v.push((String::from_str("total"), u64_to_string(total)));
        v.push((String::from_str("used"), u64_to_string(used)));
        v.push((String::from_str("percent"), u64_to_string(percent)));
        v.push((String::from_str("icon"), icon.concat(crate::ICON_END)));
        Ok(v)
    }

    /// Builds the reply for one ram `Get`, from the `free -b` output.
    pub fn parse_item(item: DaemonItem, ram_item: &RamItem, output: &str) -> (r: Result<
        DaemonReply,
        DaemonError,
    >)
        ensures
            r matches Ok(rep) ==> match ram_item {
                RamItem::Total => rep matches DaemonReply::Value { item: i, value } && i == item
                    && value@ == dec_str(spec_ram_field(output@, 0)),
                RamItem::Used => rep matches DaemonReply::Value { item: i, value } && i == item
                    && value@ == dec_str(spec_ram_field(output@, 1)),
                RamItem::Percent => rep matches DaemonReply::Value { item: i, value } && i == item
                    && value@ == dec_str(
                    spec_ram_percent(
                        spec_ram_field(output@, 1) as u64,
                        spec_ram_field(output@, 0) as u64,
                    ) as int,
                ),
                RamItem::Icon => rep matches DaemonReply::Value { item: i, value } && i == item
                    && value@ == "nvidia-ram"@ + crate::ICON_END@,
                RamItem::All => rep matches DaemonReply::Tuples { item: i, tuples } && i == item
                    && (pairs_view(tuples@) =~~= spec_ram_tuples(output@)),
            },
            r is Ok <==> match ram_item {
                RamItem::Total => spec_ram_field_ok(output@, 0),
                RamItem::Used => spec_ram_field_ok(output@, 1),
                RamItem::Percent => spec_ram_ok(output@),
                RamItem::Icon => true,
                RamItem::All => spec_ram_ok(output@),
            },
    {
        Ok(
            match ram_item {
                RamItem::Total => DaemonReply::Value {
                    item,
                    value: u64_to_string(Self::get_total(output)?),
                },
                RamItem::Used => DaemonReply::Value {
                    item,
                    value: u64_to_string(Self::get_used(output)?),
                },
                RamItem::Percent => DaemonReply::Value {
                    item,
                    value: u64_to_string(Self::get_percent(output)?),
                },
                RamItem::Icon => DaemonReply::Value { item, value: Self::get_icon() },
                RamItem::All => DaemonReply::Tuples { item, tuples: Self::get_tuples(output)? },
            },
        )
    }

    /// The request one ram subcommand stands for.
    pub fn match_get_commands(commands: Option<RamGetCommands>) -> (r: DaemonMessage)
        ensures
            r matches DaemonMessage::Get { item } && item == DaemonItem::Ram(
                match commands {
                    Some(RamGetCommands::Total) => RamItem::Total,
                    Some(RamGetCommands::Used) => RamItem::Used,
                    Some(RamGetCommands::Percent) => RamItem::Percent,
                    Some(RamGetCommands::Icon) => RamItem::Icon,
                    None => RamItem::All,
                },
            ),
    {
        DaemonMessage::Get {
            item: match commands {
                Some(commands) => match commands {
                    RamGetCommands::Total => DaemonItem::Ram(RamItem::Total),
                    RamGetCommands::Used => DaemonItem::Ram(RamItem::Used),
                    RamGetCommands::Percent => DaemonItem::Ram(RamItem::Percent),
                    RamGetCommands::Icon => DaemonItem::Ram(RamItem::Icon),
                },
                None => DaemonItem::Ram(RamItem::All),
            },
        }
    }
}

} // verus!
