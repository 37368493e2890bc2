//! Memory provider of the earlier text protocol: parsing `free -b` output
//! into the cached tuples and answering queries against them.
use vstd::prelude::*;
use vstd::string::*;

use crate::daemon::pairs_view;
use crate::server::ServerError;
use crate::text::{
    dec_body, dec_str, dec_val, parse_u64, spec_split, spec_split_ws, split_char, split_ws,
    str_eq, u64_to_string, valid_u64_str,
};

verus! {

/// The whitespace tokens of the memory line of `free -b` output; the
/// leading `Mem:` label is a token of its own here.
pub open spec fn spec_mem_tokens(out: Seq<char>) -> Seq<Seq<char>> {
    spec_split_ws(spec_split(out, '\n')[1])
}

/// Whether token `i` of the memory line is a readable `u64`.
pub open spec fn spec_mem_field_ok(out: Seq<char>, i: int) -> bool {
    &&& spec_split(out, '\n').len() >= 2
    &&& spec_mem_tokens(out).len() > i
    &&& valid_u64_str(spec_mem_tokens(out)[i])
}

/// The value of token `i` of the memory line.
pub open spec fn spec_mem_field(out: Seq<char>, i: int) -> int {
    dec_val(dec_body(spec_mem_tokens(out)[i]))
}

/// Used bytes over the second field, as a whole percentage, saturated.
pub open spec fn spec_mem_percent(used: u64, avail: u64) -> u64 {
    if avail == 0 {
        if used == 0 {
            0u64
        } else {
            u64::MAX
        }
    } else if used as int * 100 / avail as int > u64::MAX {
        u64::MAX
    } else {
        (used as int * 100 / avail as int) as u64
    }
}

/// Which cache position a memory query argument names, if any.
pub open spec fn spec_mem_alias(arg: Seq<char>) -> Option<int> {
    if arg == "used_bytes"@ || arg == "used_b"@ || arg == "ub"@ {
        Some(0)
    } else if arg == "used_percent"@ || arg == "used_p"@ || arg == "up"@ {
        Some(1)
    } else if arg == "icon"@ || arg == "i"@ {
        Some(2)
    } else {
        None
    }
}

/// What a memory query must be answered: the cache value the alias names,
/// or the matching rejection.
pub open spec fn spec_mem_answer(
    tup: Seq<(Seq<char>, Seq<char>)>,
    args: Seq<Seq<char>>,
    res: Result<String, ServerError>,
) -> bool {
    if args.len() == 0 {
        res matches Err(e) && e is EmptyArguments
    } else {
        match spec_mem_alias(args[0]) {
            Some(i) => res matches Ok(v) && v@ == tup[i].1,
            None => res matches Err(e) && (e matches ServerError::IncorrectArgument {
                incorrect,
                ..
            } && incorrect@ == args[0]),
        }
    }
}

pub struct Memory {}

impl Memory {
    /// Reads one memory-line field out of one `free -b` output.
    fn get_field(output: &str, index: usize) -> (r: Result<u64, ServerError>)
        ensures
            r is Ok <==> spec_mem_field_ok(output@, index as int),
            r matches Ok(v) ==> v == spec_mem_field(output@, index as int),
    {
        let lines = split_char(output, '\n');
        if lines.len() < 2 {
            return Err(
                ServerError::NotInOutput {
                    looking_for: String::from_str("memory"),
                    output: String::from_str(output),
                },
            );
        }
        proof {
            assert(lines@[1]@ == spec_split(output@, '\n')[1]);
        }
        let toks = split_ws(lines[1].as_str());
        if toks.len() <= index {
            return Err(
                ServerError::NotInOutput {
                    looking_for: String::from_str("memory field"),
                    output: lines[1].clone(),
                },
            );
        }
        proof {
            assert(toks@[index as int]@ == spec_mem_tokens(output@)[index as int]);
        }
        match parse_u64(toks[index].as_str()) {
            Ok(v) => Ok(v),
            Err(_) => Err(
                ServerError::StringParse {
                    debug_string: toks[index].clone(),
                    ty: String::from_str("number"),
                },
            ),
        }
    }

    /// The fixed memory icon file name.
    pub fn get_icon() -> (r: String)
        ensures
            r@ == "nvidia-ram"@ + crate::ICON_EXT@,
    {
        String::from_str("nvidia-ram").concat(crate::ICON_EXT)
    }

    /// Rebuilds the memory cache from one fresh `free -b` output.
    pub fn update(output: &str) -> (r: Result<Vec<(String, String)>, ServerError>)
        ensures
            r is Ok <==> (spec_mem_field_ok(output@, 2) && spec_mem_field_ok(output@, 1)),
            r matches Ok(v) ==> v@.len() == 3,
    {
        Self::get_json_tuple(output)
    }

    /// The memory cache one `free -b` output yields: used bytes, the used
    /// percentage of the second field, and the icon, in that order.
    pub fn get_json_tuple(output: &str) -> (r: Result<Vec<(String, String)>, ServerError>)
        ensures
            r is Ok <==> (spec_mem_field_ok(output@, 2) && spec_mem_field_ok(output@, 1)),
            r matches Ok(v) ==> pairs_view(v@) =~~= seq![
                ("used_bytes"@, dec_str(spec_mem_field(output@, 2))),
                (
                    "used_percent"@,
                    dec_str(
                        spec_mem_percent(
                            spec_mem_field(output@, 2) as u64,
                            spec_mem_field(output@, 1) as u64,
                        ) as int,
                    ),
                ),
                ("icon"@, "nvidia-ram"@ + crate::ICON_EXT@),
            ],
    {
        let used = Self::get_field(output, 2)?;
        let avail = Self::get_field(output, 1)?;
        let percent: u64 = if avail == 0 {
            if used == 0 {
                0
            } else {
                u64::MAX
            }
        } else {
            let wide: u128 = (used as u128) * 100 / (avail as u128);
            proof {
                assert(used as int * 100 / avail as int == wide) by (nonlinear_arith)
                    requires
                        wide == used as u128 as int * 100 / (avail as u128 as int),
                        avail > 0,
                ;
            }
            if wide > u64::MAX as u128 {
                u64::MAX
            } else {
                wide as u64
            }
        };
        let mut v: Vec<(String, String)> = Vec::new();
        v.push((String::from_str("used_bytes"), u64_to_string(used)));
        v.push((String::from_str("used_percent"), u64_to_string(percent)));
        v.push((String::from_str("icon"), Self::get_icon()));
        Ok(v)
    }

    /// Answers one memory query from the cache by position: used bytes, the
    /// used percentage, or the icon, each under its aliases.
    pub fn parse_args(vec_tup: &Vec<(String, String)>, args: &Vec<String>) -> (r: Result<
        String,
        ServerError,
    >)
        requires
            vec_tup@.len() >= 3,
        ensures
            spec_mem_answer(pairs_view(vec_tup@), args.deep_view(), r),
    {
        if args.len() == 0 {
            return Err(ServerError::EmptyArguments);
        }
        proof {
            broadcast use vstd::string::group_string_axioms;

            reveal_strlit("used_bytes");
            reveal_strlit("used_b");
            reveal_strlit("ub");
            reveal_strlit("used_percent");
            reveal_strlit("used_p");
            reveal_strlit("up");
            reveal_strlit("icon");
            reveal_strlit("i");
            assert("used_bytes"@.len() == 10);
            assert("used_b"@.len() == 6);
            assert("ub"@.len() == 2);
            assert("used_percent"@.len() == 12);
            assert("used_p"@.len() == 6);
            assert("up"@.len() == 2);
            assert("icon"@.len() == 4);
            assert("i"@.len() == 1);
            assert("used_b"@[5] == 'b' && "used_p"@[5] == 'p');
            assert("ub"@[1] == 'b' && "up"@[1] == 'p');
        }
        let a = args[0].as_str();
        if str_eq(a, "used_bytes") || str_eq(a, "used_b") || str_eq(a, "ub") {
            Ok(vec_tup[0].1.clone())
        } else if str_eq(a, "used_percent") || str_eq(a, "used_p") || str_eq(a, "up") {
            Ok(vec_tup[1].1.clone())
        } else if str_eq(a, "icon") || str_eq(a, "i") {
            Ok(vec_tup[2].1.clone())
        } else {
            let mut valid: Vec<String> = Vec::new();
            valid.push(String::from_str("used_bytes"));
            valid.push(String::from_str("used_percent"));
            valid.push(String::from_str("icon"));
            Err(ServerError::IncorrectArgument { incorrect: args[0].clone(), valid })
        }
    }
}

} // verus!
