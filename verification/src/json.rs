//! A small JSON emitter for the snapshot pushed to listeners: nested objects
//! of string fields, with the escaping JSON requires. Emission is
//! deterministic, so every listener of one broadcast cycle gets the same
//! bytes.
use vstd::prelude::*;
use vstd::string::*;

use crate::daemon::groups_view;
use crate::text::push_char;

verus! {

/// The hexadecimal digit for a value below sixteen.
pub open spec fn hex_digit(d: int) -> char {
    if d < 10 {
        ((48 + d) as u8) as char
    } else {
        ((87 + d) as u8) as char
    }
}

/// How one character appears inside a JSON string literal: quote and
/// backslash are escaped, control characters become `\u00XX`, everything
/// else stands for itself.
pub open spec fn json_escape_char(c: char) -> Seq<char> {
    if c == '"' {
        seq!['\\', '"']
    } else if c == '\\' {
        seq!['\\', '\\']
    } else if (c as u32) < 32 {
        seq!['\\', 'u', '0', '0', hex_digit(c as u32 as int / 16), hex_digit(c as u32 as int % 16)]
    } else {
        seq![c]
    }
}

/// How a whole string appears inside a JSON string literal.
pub open spec fn json_escape_seq(s: Seq<char>) -> Seq<char>
    decreases s.len(),
{
    if s.len() == 0 {
        Seq::empty()
    } else {
        json_escape_seq(s.take(s.len() - 1)) + json_escape_char(s.last())
    }
}

/// Escapes a string for use inside a JSON string literal.
pub fn json_escape(s: &str) -> (r: String)
    ensures
        r@ == json_escape_seq(s@),
{
    let s_len = s.unicode_len();
    let mut r = String::new();
    let mut i: usize = 0;
    while i < s_len
        invariant
            i <= s_len,
            s_len == s@.len(),
            r@ == json_escape_seq(s@.take(i as int)),
        decreases s_len - i,
    {
        let c = s.get_char(i);
        let cv = c as u32;
        if c == '"' {
            r.append("\\\"");
        } else if c == '\\' {
            r.append("\\\\");
        } else if cv < 32 {
            r.append("\\u00");
            let hi = cv / 16;
            let lo = cv % 16;
            let hex = "0123456789abcdef";
            proof {
                reveal_strlit("0123456789abcdef");
            }
            r.append(hex.substring_char(hi as usize, hi as usize + 1));
            r.append(hex.substring_char(lo as usize, lo as usize + 1));
        } else {
            push_char(&mut r, c);
        }
        proof {
            reveal_strlit("\\\"");
            reveal_strlit("\\\\");
            reveal_strlit("\\u00");
            assert(s@.take(i + 1).take(i as int) =~= s@.take(i as int));
            assert(s@.take(i + 1).last() == s@[i as int]);
            assert(r@ =~= json_escape_seq(s@.take(i + 1)));
        }
        i += 1;
    }
    proof {
        assert(s@.take(s_len as int) =~= s@);
    }
    r
}

/// Pieces joined with commas, as JSON members are.
pub open spec fn spec_join_comma(parts: Seq<Seq<char>>) -> Seq<char>
    decreases parts.len(),
{
    if parts.len() == 0 {
        Seq::empty()
    } else if parts.len() == 1 {
        parts[0]
    } else {
        parts[0] + ","@ + spec_join_comma(parts.skip(1))
    }
}

pub proof fn lemma_join_push(parts: Seq<Seq<char>>, x: Seq<char>)
    ensures
        spec_join_comma(parts.push(x)) == if parts.len() == 0 {
            x
        } else {
            spec_join_comma(parts) + ","@ + x
        },
    decreases parts.len(),
{
    if parts.len() == 0 {
        assert(parts.push(x)[0] == x);
        assert(spec_join_comma(parts.push(x)) == x);
    } else {
        lemma_join_push(parts.skip(1), x);
        assert(parts.push(x).skip(1) =~= parts.skip(1).push(x));
        assert(parts.push(x)[0] == parts[0]);
        if parts.len() == 1 {
            assert(spec_join_comma(parts.push(x)) =~= parts[0] + ","@ + x);
            assert(spec_join_comma(parts) + ","@ + x =~= parts[0] + ","@ + x);
        } else {
            assert(spec_join_comma(parts.push(x)) =~= parts[0] + ","@ + (spec_join_comma(
                parts.skip(1),
            ) + ","@ + x));
            assert(spec_join_comma(parts) + ","@ + x =~= parts[0] + ","@ + (spec_join_comma(
                parts.skip(1),
            ) + ","@ + x));
        }
    }
}

/// One `"name":"value"` member.
pub open spec fn spec_json_member(p: (Seq<char>, Seq<char>)) -> Seq<char> {
    "\""@ + json_escape_seq(p.0) + "\":\""@ + json_escape_seq(p.1) + "\""@
}

/// One flat object of string fields.
pub open spec fn spec_json_object(ts: Seq<(Seq<char>, Seq<char>)>) -> Seq<char> {
    "{"@ + spec_join_comma(ts.map_values(|p: (Seq<char>, Seq<char>)| spec_json_member(p))) + "}"@
}

/// One named group: its name, then its fields as an object.
pub open spec fn spec_json_group(g: (Seq<char>, Seq<(Seq<char>, Seq<char>)>)) -> Seq<char> {
    "\""@ + json_escape_seq(g.0) + "\":"@ + spec_json_object(g.1)
}

/// The whole snapshot: an object of named groups.
pub open spec fn spec_json_groups(gs: Seq<(Seq<char>, Seq<(Seq<char>, Seq<char>)>)>) -> Seq<
    char,
> {
    "{"@ + spec_join_comma(
        gs.map_values(|g: (Seq<char>, Seq<(Seq<char>, Seq<char>)>)| spec_json_group(g)),
    ) + "}"@
}

/// Renders one flat object of string fields.
pub fn pairs_to_json_object(ts: &Vec<(String, String)>) -> (r: String)
    ensures
        r@ == spec_json_object(crate::daemon::pairs_view(ts@)),
{
    let ghost view = crate::daemon::pairs_view(ts@);
    let ghost members = view.map_values(|p: (Seq<char>, Seq<char>)| spec_json_member(p));
    let mut r = String::from_str("{");
    let mut i: usize = 0;
    while i < ts.len()
        invariant
            i <= ts@.len(),
            view == crate::daemon::pairs_view(ts@),
            members == view.map_values(|p: (Seq<char>, Seq<char>)| spec_json_member(p)),
            members.len() == ts@.len(),
            r@ == "{"@ + spec_join_comma(members.take(i as int)),
        decreases ts@.len() - i,
    {
        if i > 0 {
            r.append(",");
        }
        r.append("\"");
        let name = json_escape(ts[i].0.as_str());
        r.append(name.as_str());
        r.append("\":\"");
        let value = json_escape(ts[i].1.as_str());
        r.append(value.as_str());
        r.append("\"");
        proof {
            reveal_strlit(",");
            reveal_strlit("\"");
            reveal_strlit("\":\"");
            assert(members[i as int] == spec_json_member(view[i as int]));
            assert(members.take(i + 1) =~= members.take(i as int).push(members[i as int]));
            lemma_join_push(members.take(i as int), members[i as int]);
            assert(r@ =~= "{"@ + spec_join_comma(members.take(i + 1)));
        }
        i += 1;
    }
    r.append("}");
    proof {
        assert(members.take(members.len() as int) =~= members);
        assert(r@ =~= spec_json_object(view));
    }
    r
}

/// Renders the whole snapshot as one JSON object of named groups, each group
/// an object of its name/value fields.
pub fn tuples_to_json(tuples: &Vec<(String, Vec<(String, String)>)>) -> (r: String)
    ensures
        r@ == spec_json_groups(groups_view(tuples@)),
{
    let ghost view = groups_view(tuples@);
    let ghost members = view.map_values(
        |g: (Seq<char>, Seq<(Seq<char>, Seq<char>)>)| spec_json_group(g),
    );
    let mut r = String::from_str("{");
    let mut i: usize = 0;
    while i < tuples.len()
        invariant
            i <= tuples@.len(),
            view == groups_view(tuples@),
            members == view.map_values(
                |g: (Seq<char>, Seq<(Seq<char>, Seq<char>)>)| spec_json_group(g),
            ),
            members.len() == tuples@.len(),
            r@ == "{"@ + spec_join_comma(members.take(i as int)),
        decreases tuples@.len() - i,
    {
        if i > 0 {
            r.append(",");
        }
        r.append("\"");
        let name = json_escape(tuples[i].0.as_str());
        r.append(name.as_str());
        r.append("\":");
        let obj = pairs_to_json_object(&tuples[i].1);
        r.append(obj.as_str());
        proof {
            reveal_strlit(",");
            reveal_strlit("\"");
            reveal_strlit("\":");
            assert(members[i as int] == spec_json_group(view[i as int]));
            assert(members.take(i + 1) =~= members.take(i as int).push(members[i as int]));
            lemma_join_push(members.take(i as int), members[i as int]);
            assert(r@ =~= "{"@ + spec_join_comma(members.take(i + 1)));
        }
        i += 1;
    }
    r.append("}");
    proof {
        assert(members.take(members.len() as int) =~= members);
        assert(r@ =~= spec_json_groups(view));
    }
    r
}

} // verus!
