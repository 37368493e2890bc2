//! The earlier text protocol's pure decisions: argument parsing into server
//! commands, the cached-tuples state the channel loop keeps, and the step
//! that answers each command. The sockets, channels and provider refreshes
//! around them live in the surrounding binary.
use vstd::prelude::*;
use vstd::string::*;

use crate::channel::ServerCommand;
use crate::json::{pairs_to_json_object, spec_json_object, spec_join_comma, json_escape_seq};
use crate::text::{spec_split_ws, split_ws, str_eq};

verus! {

/// Everything the earlier text server can complain about.
#[derive(Debug, Clone)]
pub enum ServerError {
    /// A request without enough arguments.
    EmptyArguments,
    /// An argument outside the accepted set, with the accepted set.
    IncorrectArgument { incorrect: String, valid: Vec<String> },
    /// A channel could not carry a message.
    ChannelSend { message: String },
    /// A command's output lacked an expected part.
    NotInOutput { looking_for: String, output: String },
    /// A value failed to parse as the named type.
    StringParse { debug_string: String, ty: String },
    /// The listening address could not be bound.
    AddressInUse(String),
    /// The server socket could not be reached.
    SocketConnect(String),
    /// Every bounded retry failed.
    RetryError,
}

/// What one parsed request asks of the server.
#[derive(Debug, Clone)]
pub enum ServerRequest {
    /// Answer one query from the cached tuples.
    Query(ServerCommand),
    /// Stream every future snapshot to this connection.
    Listen,
    /// Refresh the named caches, then push a snapshot.
    Update(Vec<ServerCommand>),
}

/// The provider names the text protocol accepts, long and short.
pub open spec fn spec_provider_of(arg: Seq<char>) -> Option<int> {
    if arg == "volume"@ || arg == "vol"@ {
        Some(0)
    } else if arg == "brightness"@ || arg == "bri"@ {
        Some(1)
    } else if arg == "battery"@ || arg == "bat"@ {
        Some(2)
    } else if arg == "memory"@ || arg == "mem"@ {
        Some(3)
    } else if arg == "bluetooth"@ || arg == "bt"@ {
        Some(4)
    } else {
        None
    }
}

fn provider_of(arg: &str) -> (r: Option<u32>)
    ensures
        r matches Some(v) ==> Some(v as int) == spec_provider_of(arg@),
        r is Some <==> spec_provider_of(arg@) is Some,
{
    if str_eq(arg, "volume") || str_eq(arg, "vol") {
        Some(0)
    } else if str_eq(arg, "brightness") || str_eq(arg, "bri") {
        Some(1)
    } else if str_eq(arg, "battery") || str_eq(arg, "bat") {
        Some(2)
    } else if str_eq(arg, "memory") || str_eq(arg, "mem") {
        Some(3)
    } else if str_eq(arg, "bluetooth") || str_eq(arg, "bt") {
        Some(4)
    } else {
        None
    }
}

fn valid_provider_names() -> (r: Vec<String>)
    ensures
        r@.len() == 5,
{
    let mut v: Vec<String> = Vec::new();
    v.push(String::from_str("volume"));
    v.push(String::from_str("brightness"));
    v.push(String::from_str("battery"));
    v.push(String::from_str("memory"));
    v.push(String::from_str("bluetooth"));
    v
}

/// Whether a `get` request is well-formed: a known provider name and at
/// least one query argument after it.
pub open spec fn spec_get_request_ok(args: Seq<Seq<char>>) -> bool {
    args.len() > 2 && spec_provider_of(args[1]) is Some
}

/// The command a well-formed `get` request stands for: the named provider's
/// query, carrying everything after the provider name.
pub open spec fn spec_get_request_matches(args: Seq<Seq<char>>, cmd: ServerCommand) -> bool {
    let p = spec_provider_of(args[1]);
    let tail = args.skip(2);
    if p == Some(0int) {
        cmd matches ServerCommand::GetVol { args: a } && a.deep_view() == tail
    } else if p == Some(1int) {
        cmd matches ServerCommand::GetBri { args: a } && a.deep_view() == tail
    } else if p == Some(2int) {
        cmd matches ServerCommand::GetBat { args: a } && a.deep_view() == tail
    } else if p == Some(3int) {
        cmd matches ServerCommand::GetMem { args: a } && a.deep_view() == tail
    } else if p == Some(4int) {
        cmd matches ServerCommand::GetBlu { args: a } && a.deep_view() == tail
    } else {
        false
    }
}

/// The signals an accepted `update` request publishes: the named provider's
/// refresh when one is named, then always the full refresh.
pub open spec fn spec_update_request_matches(args: Seq<Seq<char>>, cmds: Seq<ServerCommand>) -> bool {
    if args.len() < 2 {
        cmds.len() == 1 && cmds[0] is UpdateAll
    } else {
        let p = spec_provider_of(args[1]);
        &&& cmds.len() == 2
        &&& cmds[1] is UpdateAll
        &&& p == Some(0int) ==> cmds[0] is UpdateVol
        &&& p == Some(1int) ==> cmds[0] is UpdateBri
        &&& p == Some(2int) ==> cmds[0] is UpdateBat
        &&& p == Some(3int) ==> cmds[0] is UpdateMem
        &&& p == Some(4int) ==> cmds[0] is UpdateBlu
    }
}

/// Splits one socket read of the text protocol into its arguments.
pub fn process_socket_message(message: &str) -> (r: Vec<String>)
    ensures
        r.deep_view() == spec_split_ws(message@),
{
    split_ws(message)
}

/// Parses a `get` request: the provider named by the second argument, with
/// everything after it as the query; fewer than three arguments are turned
/// away empty-handed.
pub fn parse_get_args(args: &Vec<String>) -> (r: Result<ServerCommand, ServerError>)
    ensures
        r is Ok <==> spec_get_request_ok(args.deep_view()),
        r matches Ok(cmd) ==> spec_get_request_matches(args.deep_view(), cmd),
        r matches Err(e) ==> (e is EmptyArguments <==> args@.len() <= 2),
        args@.len() > 2 && r is Err ==> (r matches Err(e) && e
            matches ServerError::IncorrectArgument { incorrect, .. } && incorrect@ == args@[1]@),
{
    if args.len() <= 2 {
        return Err(ServerError::EmptyArguments);
    }
    let mut rest: Vec<String> = Vec::new();
    let mut i: usize = 2;
    while i < args.len()
        invariant
            2 <= i <= args@.len(),
            rest@.len() == i - 2,
            rest.deep_view() =~~= args.deep_view().subrange(2, i as int),
        decreases args@.len() - i,
    {
        rest.push(args[i].clone());
        proof {
            assert(rest.deep_view() =~~= args.deep_view().subrange(2, i + 1));
        }
        i += 1;
    }
    proof {
        assert(rest.deep_view() =~~= args.deep_view().skip(2));
    }
    match provider_of(args[1].as_str()) {
        Some(0) => Ok(ServerCommand::GetVol { args: rest }),
        Some(1) => Ok(ServerCommand::GetBri { args: rest }),
        Some(2) => Ok(ServerCommand::GetBat { args: rest }),
        Some(3) => Ok(ServerCommand::GetMem { args: rest }),
        Some(_) => Ok(ServerCommand::GetBlu { args: rest }),
        None => Err(
            ServerError::IncorrectArgument {
                incorrect: args[1].clone(),
                valid: valid_provider_names(),
            },
        ),
    }
}

/// Parses an `update` request: the signals to publish, in order — the named
/// provider's refresh when one is named, then always a full refresh. An
/// unknown provider name is turned away.
pub fn parse_update_args(args: &Vec<String>) -> (r: Result<Vec<ServerCommand>, ServerError>)
    ensures
        r is Ok <==> (args@.len() < 2 || spec_provider_of(args@[1]@) is Some),
        r matches Ok(cmds) ==> spec_update_request_matches(args.deep_view(), cmds@),
{
    let mut cmds: Vec<ServerCommand> = Vec::new();
    if args.len() >= 2 {
        match provider_of(args[1].as_str()) {
            Some(0) => cmds.push(ServerCommand::UpdateVol),
            Some(1) => cmds.push(ServerCommand::UpdateBri),
            Some(2) => cmds.push(ServerCommand::UpdateBat),
            Some(3) => cmds.push(ServerCommand::UpdateMem),
            Some(_) => cmds.push(ServerCommand::UpdateBlu),
            None => {
                return Err(
                    ServerError::IncorrectArgument {
                        incorrect: args[1].clone(),
                        valid: valid_provider_names(),
                    },
                );
            },
        }
    }
    cmds.push(ServerCommand::UpdateAll);
    Ok(cmds)
}

/// Parses one request of the text protocol: `get`, `listen` or `update`;
/// anything else is turned away with the accepted commands.
pub fn parse_args(args: &Vec<String>) -> (r: Result<ServerRequest, ServerError>)
    ensures
        args@.len() == 0 ==> (r matches Err(e) && e is EmptyArguments),
        args@.len() > 0 ==> {
            &&& args@[0]@ == "get"@ ==> ((r is Ok <==> spec_get_request_ok(args.deep_view())) && (
            r matches Ok(q) ==> (q matches ServerRequest::Query(cmd) && spec_get_request_matches(
                args.deep_view(),
                cmd,
            ))))
            &&& args@[0]@ == "listen"@ ==> (r matches Ok(q) && q is Listen)
            &&& args@[0]@ == "update"@ ==> ((r is Ok <==> (args@.len() < 2 || spec_provider_of(
                args@[1]@,
            ) is Some)) && (r matches Ok(q) ==> (q matches ServerRequest::Update(cmds)
                && spec_update_request_matches(args.deep_view(), cmds@))))
            &&& (args@[0]@ != "get"@ && args@[0]@ != "listen"@ && args@[0]@ != "update"@) ==> (
            r matches Err(e) && e matches ServerError::IncorrectArgument { incorrect, .. }
                && incorrect@ == args@[0]@)
        },
{
    if args.len() == 0 {
        return Err(ServerError::EmptyArguments);
    }
    proof {
        reveal_strlit("get");
        reveal_strlit("listen");
        reveal_strlit("update");
        assert("get"@.len() == 3);
        assert("listen"@.len() == 6);
        assert("update"@.len() == 6);
        assert("listen"@[0] == 'l' && "update"@[0] == 'u');
    }
    if str_eq(args[0].as_str(), "get") {
        Ok(ServerRequest::Query(parse_get_args(args)?))
    } else if str_eq(args[0].as_str(), "listen") {
        Ok(ServerRequest::Listen)
    } else if str_eq(args[0].as_str(), "update") {
        Ok(ServerRequest::Update(parse_update_args(args)?))
    } else {
        let mut valid: Vec<String> = Vec::new();
        valid.push(String::from_str("get"));
        valid.push(String::from_str("listen"));
        valid.push(String::from_str("update"));
        Err(ServerError::IncorrectArgument { incorrect: args[0].clone(), valid })
    }
}

/// The first value stored under `name` in a tuple list, if any.
pub open spec fn spec_lookup(pairs: Seq<(Seq<char>, Seq<char>)>, name: Seq<char>) -> Option<
    Seq<char>,
>
    decreases pairs.len(),
{
    if pairs.len() == 0 {
        None
    } else if pairs[0].0 == name {
        Some(pairs[0].1)
    } else {
        spec_lookup(pairs.skip(1), name)
    }
}

/// What a cached-tuples query must be answered: the value under the first
/// argument's name, or the matching rejection.
pub open spec fn spec_query_answer(
    pairs: Seq<(Seq<char>, Seq<char>)>,
    args: Seq<Seq<char>>,
    res: Result<String, ServerError>,
) -> bool {
    if args.len() == 0 {
        res matches Err(e) && e is EmptyArguments
    } else {
        match spec_lookup(pairs, args[0]) {
            Some(v) => res matches Ok(rv) && rv@ == v,
            None => res matches Err(e) && (e matches ServerError::IncorrectArgument {
                incorrect,
                ..
            } && incorrect@ == args[0]),
        }
    }
}

/// The cached tuple lists the channel loop serves queries from.
#[derive(Debug, Clone)]
pub struct ServerState {
    pub vol_tup: Vec<(String, String)>,
    pub bri_tup: Vec<(String, String)>,
    pub bat_tup: Vec<(String, String)>,
    pub mem_tup: Vec<(String, String)>,
    pub blu_tup: Vec<(String, String)>,
}

/// Which cache a refresh replaces.
#[derive(Debug, Clone, Copy, PartialEq, Eq, Structural)]
pub enum RefreshTarget {
    Vol,
    Bri,
    Bat,
    Mem,
    Blu,
}

/// What one channel command makes the loop do.
#[derive(Debug)]
pub enum ServerStep {
    /// Send this answer back on the response channel.
    Respond(Result<String, ServerError>),
    /// Re-read this provider and store the fresh tuples.
    Refresh(RefreshTarget),
    /// Refresh battery and memory, then push the full snapshot.
    Broadcast,
}

impl ServerState {
    /// The memory cache keeps the shape its queries index into.
    pub open spec fn wf(&self) -> bool {
        self.mem_tup@.len() >= 3
    }

    /// Stores freshly read tuples in one cache.
    pub fn apply_refresh(&mut self, target: RefreshTarget, tuples: Vec<(String, String)>)
        requires
            old(self).wf(),
            target == RefreshTarget::Mem ==> tuples@.len() >= 3,
        ensures
            final(self).wf(),
            final(self).vol_tup == (if target == RefreshTarget::Vol { tuples } else { old(self).vol_tup }),
            final(self).bri_tup == (if target == RefreshTarget::Bri { tuples } else { old(self).bri_tup }),
            final(self).bat_tup == (if target == RefreshTarget::Bat { tuples } else { old(self).bat_tup }),
            final(self).mem_tup == (if target == RefreshTarget::Mem { tuples } else { old(self).mem_tup }),
            final(self).blu_tup == (if target == RefreshTarget::Blu { tuples } else { old(self).blu_tup }),
    {
        match target {
            RefreshTarget::Vol => self.vol_tup = tuples,
            RefreshTarget::Bri => self.bri_tup = tuples,
            RefreshTarget::Bat => self.bat_tup = tuples,
            RefreshTarget::Mem => self.mem_tup = tuples,
            RefreshTarget::Blu => self.blu_tup = tuples,
        }
    }

    /// Answers one query from the matching cache: the value under the first
    /// argument's name, or the accepted names.
    fn lookup(tup: &Vec<(String, String)>, args: &Vec<String>) -> (r: Result<String, ServerError>)
        ensures
            spec_query_answer(crate::daemon::pairs_view(tup@), args.deep_view(), r),
    {
        if args.len() == 0 {
            return Err(ServerError::EmptyArguments);
        }
        let ghost pairs = crate::daemon::pairs_view(tup@);
        let ghost name = args@[0]@;
        proof {
            assert(args.deep_view()[0] == name);
            assert(pairs.skip(0) =~= pairs);
        }
        let mut i: usize = 0;
        while i < tup.len()
            invariant
                i <= tup@.len(),
                args@.len() > 0,
                pairs == crate::daemon::pairs_view(tup@),
                name == args@[0]@,
                spec_lookup(pairs, name) == spec_lookup(pairs.skip(i as int), name),
            decreases tup@.len() - i,
        {
            if str_eq(tup[i].0.as_str(), args[0].as_str()) {
                proof {
                    assert(pairs.skip(i as int)[0] == pairs[i as int]);
                    assert(spec_lookup(pairs.skip(i as int), name) == Some(pairs[i as int].1));
                }
                return Ok(tup[i].1.clone());
            }
            proof {
                assert(pairs.skip(i as int)[0] == pairs[i as int]);
                assert(pairs.skip(i as int).skip(1) =~= pairs.skip(i + 1));
            }
            i += 1;
        }
        proof {
            assert(pairs.skip(tup@.len() as int).len() == 0);
            assert(spec_lookup(pairs, name) is None);
        }
        let mut valid: Vec<String> = Vec::new();
        let mut j: usize = 0;
        while j < tup.len()
            invariant
                j <= tup@.len(),
            decreases tup@.len() - j,
        {
            valid.push(tup[j].0.clone());
            j += 1;
        }
        Err(ServerError::IncorrectArgument { incorrect: args[0].clone(), valid })
    }

    /// Decides what one channel command makes the loop do: queries are
    /// answered from the caches at once, refreshes name their target, and a
    /// full update asks for the broadcast path.
    pub fn server_channel_step(&self, cmd: &ServerCommand) -> (r: ServerStep)
        requires
            self.wf(),
        ensures
            cmd is UpdateAll ==> r is Broadcast,
            cmd is UpdateVol ==> (r matches ServerStep::Refresh(t) && t == RefreshTarget::Vol),
            cmd is UpdateBri ==> (r matches ServerStep::Refresh(t) && t == RefreshTarget::Bri),
            cmd is UpdateBat ==> (r matches ServerStep::Refresh(t) && t == RefreshTarget::Bat),
            cmd is UpdateMem ==> (r matches ServerStep::Refresh(t) && t == RefreshTarget::Mem),
            cmd is UpdateBlu ==> (r matches ServerStep::Refresh(t) && t == RefreshTarget::Blu),
            cmd matches ServerCommand::GetVol { args } ==> (r matches ServerStep::Respond(res)
                && spec_query_answer(
                crate::daemon::pairs_view(self.vol_tup@),
                args.deep_view(),
                res,
            )),
            cmd matches ServerCommand::GetBri { args } ==> (r matches ServerStep::Respond(res)
                && spec_query_answer(
                crate::daemon::pairs_view(self.bri_tup@),
                args.deep_view(),
                res,
            )),
            cmd matches ServerCommand::GetBat { args } ==> (r matches ServerStep::Respond(res)
                && spec_query_answer(
                crate::daemon::pairs_view(self.bat_tup@),
                args.deep_view(),
                res,
            )),
            cmd matches ServerCommand::GetMem { args } ==> (r matches ServerStep::Respond(res)
                && crate::memory::spec_mem_answer(
                crate::daemon::pairs_view(self.mem_tup@),
                args.deep_view(),
                res,
            )),
            cmd matches ServerCommand::GetBlu { args } ==> (r matches ServerStep::Respond(res)
                && spec_query_answer(
                crate::daemon::pairs_view(self.blu_tup@),
                args.deep_view(),
                res,
            )),
    {
        match cmd {
            ServerCommand::UpdateAll => ServerStep::Broadcast,
            ServerCommand::GetVol { args } => ServerStep::Respond(
                Self::lookup(&self.vol_tup, args),
            ),
            ServerCommand::UpdateVol => ServerStep::Refresh(RefreshTarget::Vol),
            ServerCommand::GetBri { args } => ServerStep::Respond(
                Self::lookup(&self.bri_tup, args),
            ),
            ServerCommand::UpdateBri => ServerStep::Refresh(RefreshTarget::Bri),
            ServerCommand::GetBat { args } => ServerStep::Respond(
                Self::lookup(&self.bat_tup, args),
            ),
            ServerCommand::UpdateBat => ServerStep::Refresh(RefreshTarget::Bat),
            ServerCommand::GetMem { args } => ServerStep::Respond(
                crate::memory::Memory::parse_args(&self.mem_tup, args),
            ),
            ServerCommand::UpdateMem => ServerStep::Refresh(RefreshTarget::Mem),
            ServerCommand::GetBlu { args } => ServerStep::Respond(
                Self::lookup(&self.blu_tup, args),
            ),
            ServerCommand::UpdateBlu => ServerStep::Refresh(RefreshTarget::Blu),
        }
    }

    /// The combined snapshot of every cache, as one JSON object in the fixed
    /// provider order.
    #[verifier::rlimit(60)]
    pub fn get_all_json(&self) -> (r: String)
        ensures
            r@ == "{"@ + spec_join_comma(
                seq![
                    "\"volume\":"@ + spec_json_object(crate::daemon::pairs_view(self.vol_tup@)),
                    "\"brightness\":"@ + spec_json_object(
                        crate::daemon::pairs_view(self.bri_tup@),
                    ),
                    "\"battery\":"@ + spec_json_object(crate::daemon::pairs_view(self.bat_tup@)),
                    "\"memory\":"@ + spec_json_object(crate::daemon::pairs_view(self.mem_tup@)),
                    "\"bluetooth\":"@ + spec_json_object(
                        crate::daemon::pairs_view(self.blu_tup@),
                    ),
                ],
            ) + "}"@,
{
        let mut r = String::from_str("{");
        r.append("\"volume\":");
        let vol = pairs_to_json_object(&self.vol_tup);
        r.append(vol.as_str());
        r.append(",");
        r.append("\"brightness\":");
        let bri = pairs_to_json_object(&self.bri_tup);
        r.append(bri.as_str());
        r.append(",");
        r.append("\"battery\":");
        let bat = pairs_to_json_object(&self.bat_tup);
        r.append(bat.as_str());
        r.append(",");
        r.append("\"memory\":");
        let mem = pairs_to_json_object(&self.mem_tup);
        r.append(mem.as_str());
        r.append(",");
        r.append("\"bluetooth\":");
        let blu = pairs_to_json_object(&self.blu_tup);
        r.append(blu.as_str());
        r.append("}");
        proof {
            reveal_strlit("{");
            reveal_strlit("}");
            reveal_strlit(",");
            reveal_strlit("\"volume\":");
            reveal_strlit("\"brightness\":");
            reveal_strlit("\"battery\":");
            reveal_strlit("\"memory\":");
            reveal_strlit("\"bluetooth\":");
            let parts = seq![
                "\"volume\":"@ + spec_json_object(crate::daemon::pairs_view(self.vol_tup@)),
                "\"brightness\":"@ + spec_json_object(crate::daemon::pairs_view(self.bri_tup@)),
                "\"battery\":"@ + spec_json_object(crate::daemon::pairs_view(self.bat_tup@)),
                "\"memory\":"@ + spec_json_object(crate::daemon::pairs_view(self.mem_tup@)),
                "\"bluetooth\":"@ + spec_json_object(crate::daemon::pairs_view(self.blu_tup@)),
            ];
            assert(parts.skip(1).skip(1).skip(1).skip(1) =~= seq![parts[4]]);
            assert(parts.skip(1).skip(1).skip(1) =~= seq![parts[3], parts[4]]);
            assert(parts.skip(1).skip(1) =~= seq![parts[2], parts[3], parts[4]]);
            assert(parts.skip(1) =~= seq![parts[1], parts[2], parts[3], parts[4]]);
            assert(spec_join_comma(seq![parts[4]]) == parts[4]);
            assert(spec_join_comma(seq![parts[3], parts[4]]) =~= parts[3] + ","@ + parts[4]);
            assert(spec_join_comma(seq![parts[2], parts[3], parts[4]]) =~= parts[2] + ","@ + (
            parts[3] + ","@ + parts[4]));
            assert(spec_join_comma(seq![parts[1], parts[2], parts[3], parts[4]]) =~= parts[1]
                + ","@ + (parts[2] + ","@ + (parts[3] + ","@ + parts[4])));
            assert(spec_join_comma(parts) =~= parts[0] + ","@ + (parts[1] + ","@ + (parts[2]
                + ","@ + (parts[3] + ","@ + parts[4]))));
            assert(r@ =~= "{"@ + spec_join_comma(parts) + "}"@);
        }
        r
    }
}

} // verus!
