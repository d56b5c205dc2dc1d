//! From the arguments of a request to a command.

use vstd::prelude::*;
use vstd::string::*;
use crate::commands::{
    optional_text, streams_view, Command, CommandError, CommandErrorView, CommandView, StartView,
    XreadDuration, XreadStartId,
};
use crate::db::texts;
use crate::resp::{lemma_array_view, views, RespValue, RespView};
use crate::stream_types::{pairs_view, Fields};
use crate::text::{
    decimal, decimal_string, parse_seconds, parse_signed, parse_unsigned, read_seconds,
    read_signed, read_unsigned, same_text, to_upper, uppercase, Wait,
};

verus! {

/// The outcome of parsing, as mathematical values.
pub type Parsed = Result<CommandView, CommandErrorView>;

/// The text that an argument stands for: a number is written in decimal.
/// `None` for an argument that is neither text nor number.
pub open spec fn arg_text(arg: RespView) -> Option<Seq<char>> {
    match arg {
        RespView::Integer(n) => Some(decimal(n)),
        RespView::SimpleString(text) => Some(text),
        RespView::BulkString(text) => Some(text),
        _ => None,
    }
}

/// The refusal that says `message`.
pub open spec fn bad(message: Seq<char>) -> CommandErrorView {
    CommandErrorView::Argument(message)
}

/// The argument at position `at` as text: refused with `missing` where there
/// are too few arguments.
pub open spec fn required(args: Seq<RespView>, at: int, missing: Seq<char>) -> Result<
    Seq<char>,
    CommandErrorView,
> {
    if at >= args.len() {
        Err(bad(missing))
    } else {
        match arg_text(args[at]) {
            Some(text) => Ok(text),
            None => Err(bad(NOT_TEXT@)),
        }
    }
}

/// The argument at position `at` as a number no larger than `max`.
pub open spec fn number_at(args: Seq<RespView>, at: int, missing: Seq<char>, max: nat) -> Result<
    nat,
    CommandErrorView,
> {
    match required(args, at, missing) {
        Err(e) => Err(e),
        Ok(text) => match parse_unsigned(text, max) {
            Some(n) => Ok(n),
            None => Err(bad(NOT_NUMBER@)),
        },
    }
}

/// The argument at position `at` as a number within `min..=max`.
pub open spec fn signed_at(args: Seq<RespView>, at: int, missing: Seq<char>, min: int, max: int)
    -> Result<int, CommandErrorView> {
    match required(args, at, missing) {
        Err(e) => Err(e),
        Ok(text) => match parse_signed(text, min, max) {
            Some(n) => Ok(n),
            None => Err(bad(NOT_NUMBER@)),
        },
    }
}

/// Whether every argument from position `from` on stands for a text.
pub open spec fn all_texts(args: Seq<RespView>, from: int) -> bool {
    forall|i: int| from <= i < args.len() ==> arg_text(#[trigger] args[i]) is Some
}

/// The texts of the arguments from position `from` on.
pub open spec fn rest_texts(args: Seq<RespView>, from: int) -> Seq<Seq<char>> {
    Seq::new((args.len() - from) as nat, |i: int| arg_text(args[from + i])->0)
}

/// Field names and values taken two by two from `texts`.
pub open spec fn pairs_of(texts: Seq<Seq<char>>) -> Fields {
    Seq::new(texts.len() / 2, |i: int| (texts[2 * i], texts[2 * i + 1]))
}

/// Where to start in a stream: `$` is the end of the stream as it is now.
pub open spec fn start_of(text: Seq<char>) -> StartView {
    if text == seq!['$'] {
        StartView::Last
    } else {
        StartView::Normal(text)
    }
}

/// The streams of an `XREAD`: the first half of `texts` are the keys, the
/// second half the starting points, in the same order.
pub open spec fn streams_of(texts: Seq<Seq<char>>) -> Seq<(Seq<char>, StartView)> {
    Seq::new(texts.len() / 2, |i: int| (texts[i], start_of(texts[texts.len() / 2 + i])))
}

/// `PING` takes no argument.
pub open spec fn parse_ping(args: Seq<RespView>) -> Parsed {
    if args.len() > 0 {
        Err(bad("PING command takes no arguments"@))
    } else {
        Ok(CommandView::Ping)
    }
}

/// `ECHO <message>`.
pub open spec fn parse_echo(args: Seq<RespView>) -> Parsed {
    match required(args, 0, "ECHO command requires an argument"@) {
        Err(e) => Err(e),
        Ok(message) => Ok(CommandView::Echo { message }),
    }
}

/// `SET <key> <value> [PX <milliseconds>]`.
pub open spec fn parse_set(args: Seq<RespView>) -> Parsed {
    match required(args, 0, "SET command requires a key"@) {
        Err(e) => Err(e),
        Ok(key) => match required(args, 1, "SET command requires a value"@) {
            Err(e) => Err(e),
            Ok(value) => if args.len() <= 2 {
                Ok(CommandView::SetValue { key, value, expiry_millis: None })
            } else {
                match required(args, 2, NOT_TEXT@) {
                    Err(e) => Err(e),
                    Ok(option) => if uppercase(option) != "PX"@ {
                        Err(
                            bad(
                                "Unknown argument after value. Expected 'PX' or end of command."@,
                            ),
                        )
                    } else {
                        match required(args, 3, "Missing milliseconds value for PX"@) {
                            Err(e) => Err(e),
                            Ok(text) => match parse_unsigned(text, u64::MAX as nat) {
                                None => Err(bad("Invalid PX value"@)),
                                Some(millis) => if args.len() > 4 {
                                    Err(bad("Too many arguments for SET command"@))
                                } else {
                                    Ok(
                                        CommandView::SetValue {
                                            key,
                                            value,
                                            expiry_millis: Some(millis as u64),
                                        },
                                    )
                                },
                            },
                        }
                    },
                }
            },
        },
    }
}

/// `RPUSH <key> <value> [<value> ...]`.
pub open spec fn parse_rpush(args: Seq<RespView>) -> Parsed {
    match required(args, 0, "RPUSH command requires a key"@) {
        Err(e) => Err(e),
        Ok(key) => if args.len() < 2 {
            Err(bad("RPUSH command requires at least one value"@))
        } else if !all_texts(args, 1) {
            Err(bad(NOT_TEXT@))
        } else {
            Ok(CommandView::Rpush { key, values: rest_texts(args, 1) })
        },
    }
}

/// `LPUSH <key> <value> [<value> ...]`.
pub open spec fn parse_lpush(args: Seq<RespView>) -> Parsed {
    match required(args, 0, "LPUSH command requires a key"@) {
        Err(e) => Err(e),
        Ok(key) => if args.len() < 2 {
            Err(bad("LPUSH command requires at least one value"@))
        } else if !all_texts(args, 1) {
            Err(bad(NOT_TEXT@))
        } else {
            Ok(CommandView::Lpush { key, values: rest_texts(args, 1) })
        },
    }
}

/// `LPOP <key> [<count>]`.
pub open spec fn parse_lpop(args: Seq<RespView>) -> Parsed {
    match required(args, 0, "LPOP command requires a key"@) {
        Err(e) => Err(e),
        Ok(key) => if args.len() <= 1 {
            Ok(CommandView::Lpop { key, count: None })
        } else {
            match number_at(args, 1, NOT_NUMBER@, usize::MAX as nat) {
                Err(e) => Err(e),
                Ok(count) => if args.len() > 2 {
                    Err(bad("Too many arguments for LPOP command"@))
                } else {
                    Ok(CommandView::Lpop { key, count: Some(count as usize) })
                },
            }
        },
    }
}

/// `BLPOP <key> [<seconds>]`: without a time, or with zero, the client waits without
/// limit.
pub open spec fn parse_blpop(args: Seq<RespView>) -> Parsed {
    match required(args, 0, "BLPOP command requires a key"@) {
        Err(e) => Err(e),
        Ok(key) => if args.len() <= 1 {
            Ok(CommandView::Blpop { key, timeout: Wait::Forever })
        } else {
            match required(args, 1, NOT_TIMEOUT@) {
                Err(e) => Err(e),
                Ok(text) => match parse_seconds(text) {
                    None => Err(bad(NOT_TIMEOUT@)),
                    Some(timeout) => if args.len() > 2 {
                        Err(bad("Too many arguments for BLPOP command"@))
                    } else {
                        Ok(CommandView::Blpop { key, timeout })
                    },
                },
            }
        },
    }
}

/// `LLEN <key>`.
pub open spec fn parse_llen(args: Seq<RespView>) -> Parsed {
    match required(args, 0, "LLEN command requires a key"@) {
        Err(e) => Err(e),
        Ok(key) => if args.len() > 1 {
            Err(bad("Too many arguments for LLEN command"@))
        } else {
            Ok(CommandView::Llen { key })
        },
    }
}

/// `GET <key>`.
pub open spec fn parse_get(args: Seq<RespView>) -> Parsed {
    match required(args, 0, "GET command requires a key"@) {
        Err(e) => Err(e),
        Ok(key) => if args.len() > 1 {
            Err(bad("Too many arguments for GET command"@))
        } else {
            Ok(CommandView::Get { key })
        },
    }
}

/// `LRANGE <key> <start> <stop>`.
pub open spec fn parse_lrange(args: Seq<RespView>) -> Parsed {
    match required(args, 0, "LRANGE command requires a key"@) {
        Err(e) => Err(e),
        Ok(key) => match signed_at(
            args,
            1,
            "LRANGE command requires a start value"@,
            isize::MIN as int,
            isize::MAX as int,
        ) {
            Err(e) => Err(e),
            Ok(start) => match signed_at(
                args,
                2,
                "LRANGE command requires a stop value"@,
                isize::MIN as int,
                isize::MAX as int,
            ) {
                Err(e) => Err(e),
                Ok(stop) => if args.len() > 3 {
                    Err(bad("Too many arguments for LRANGE command"@))
                } else {
                    Ok(CommandView::Lrange { key, start: start as isize, stop: stop as isize })
                },
            },
        },
    }
}

/// `TYPE <key>`.
pub open spec fn parse_type(args: Seq<RespView>) -> Parsed {
    match required(args, 0, "TYPE command requires a key"@) {
        Err(e) => Err(e),
        Ok(key) => Ok(CommandView::Type { key }),
    }
}

/// `XADD <key> <id> <field> <value> [<field> <value> ...]`.
pub open spec fn parse_xadd(args: Seq<RespView>) -> Parsed {
    match required(args, 0, "XADD command requires a key"@) {
        Err(e) => Err(e),
        Ok(key) => match required(args, 1, "XADD command requires an id"@) {
            Err(e) => Err(e),
            Ok(id) => if (args.len() - 2) % 2 != 0 {
                Err(bad("XADD command requires an even number of field-value pairs"@))
            } else if args.len() == 2 {
                Err(bad("XADD command requires at least one field-value pair"@))
            } else if !all_texts(args, 2) {
                Err(bad(NOT_TEXT@))
            } else {
                Ok(CommandView::Xadd { key, id, field_value_pairs: pairs_of(rest_texts(args, 2)) })
            },
        },
    }
}

/// `XRANGE <key> [<start>] [<end>]`.
pub open spec fn parse_xrange(args: Seq<RespView>) -> Parsed {
    match required(args, 0, "XRANGE command requires a key"@) {
        Err(e) => Err(e),
        Ok(key) => if args.len() <= 1 {
            Ok(CommandView::Xrange { key, start: None, end: None })
        } else {
            match required(args, 1, NOT_TEXT@) {
                Err(e) => Err(e),
                Ok(start) => if args.len() <= 2 {
                    Ok(CommandView::Xrange { key, start: Some(start), end: None })
                } else {
                    match required(args, 2, NOT_TEXT@) {
                        Err(e) => Err(e),
                        Ok(end) => Ok(CommandView::Xrange { key, start: Some(start), end: Some(end) }),
                    }
                },
            }
        },
    }
}

/// The streams of an `XREAD` whose keyword `STREAMS` stands at position
/// `at`, with the waiting time `duration`.
pub open spec fn parse_streams(args: Seq<RespView>, at: int, duration: XreadDuration) -> Parsed {
    match required(args, at, "XREAD command requires stream or block as first arg"@) {
        Err(e) => Err(e),
        Ok(keyword) => if uppercase(keyword) != "STREAMS"@ {
            Err(bad("Expected 'streams' keyword"@))
        } else if (args.len() - at - 1) % 2 != 0 {
            Err(bad("XREAD STREAMS requires an even number of key-id pairs"@))
        } else if args.len() == at + 1 {
            Err(bad("XREAD STREAMS requires at least one key"@))
        } else if !all_texts(args, at + 1) {
            Err(bad(NOT_TEXT@))
        } else {
            Ok(CommandView::Xread { streams: streams_of(rest_texts(args, at + 1)), duration })
        },
    }
}

/// `XREAD [BLOCK <milliseconds>] STREAMS <key> [<key> ...] <id> [<id> ...]`: a time of
/// zero means no limit.
pub open spec fn parse_xread(args: Seq<RespView>) -> Parsed {
    match required(args, 0, "XREAD command requires stream or block as first arg"@) {
        Err(e) => Err(e),
        Ok(first) => if uppercase(first) == "BLOCK"@ {
            match number_at(
                args,
                1,
                "XREAD command requires duration in millis after block"@,
                u64::MAX as nat,
            ) {
                Err(e) => Err(e),
                Ok(millis) => parse_streams(
                    args,
                    2,
                    if millis == 0 {
                        XreadDuration::Inifnity
                    } else {
                        XreadDuration::Normal(millis as u64)
                    },
                ),
            }
        } else {
            parse_streams(args, 0, XreadDuration::Immediate)
        },
    }
}

/// The command that the upper-case name `name` and the arguments `args`
/// stand for.
pub open spec fn parse_upper(name: Seq<char>, args: Seq<RespView>) -> Parsed {
    if name == "PING"@ {
        parse_ping(args)
    } else if name == "ECHO"@ {
        parse_echo(args)
    } else if name == "SET"@ {
        parse_set(args)
    } else if name == "RPUSH"@ {
        parse_rpush(args)
    } else if name == "LPUSH"@ {
        parse_lpush(args)
    } else if name == "LPOP"@ {
        parse_lpop(args)
    } else if name == "BLPOP"@ {
        parse_blpop(args)
    } else if name == "LLEN"@ {
        parse_llen(args)
    } else if name == "GET"@ {
        parse_get(args)
    } else if name == "LRANGE"@ {
        parse_lrange(args)
    } else if name == "TYPE"@ {
        parse_type(args)
    } else if name == "XADD"@ {
        parse_xadd(args)
    } else if name == "XRANGE"@ {
        parse_xrange(args)
    } else if name == "XREAD"@ {
        parse_xread(args)
    } else {
        Err(CommandErrorView::UnknownCommand(name))
    }
}

/// The command that `name`, in any case, and `args` stand for.
pub open spec fn parse(name: Seq<char>, args: Seq<RespView>) -> Parsed {
    parse_upper(uppercase(name), args)
}

/// The outcome of parsing as mathematical values.
pub open spec fn outcome(r: Result<Command, CommandError>) -> Parsed {
    match r {
        Ok(command) => Ok(command@),
        Err(e) => Err(e@),
    }
}

/// The outcome of reading a text as mathematical values.
pub open spec fn text_outcome(r: Result<String, CommandError>) -> Result<Seq<char>, CommandErrorView> {
    match r {
        Ok(text) => Ok(text@),
        Err(e) => Err(e@),
    }
}

/// What an argument that is neither text nor number is refused with.
pub const NOT_TEXT: &'static str = "ERR argument must be a string or an integer";

/// What a text that is no number, or a number out of range, is refused with.
pub const NOT_NUMBER: &'static str = "ERR value is not an integer or out of range";

/// What a text that is no time in seconds is refused with.
pub const NOT_TIMEOUT: &'static str = "ERR timeout is not a number or out of range";

/// The refusal that says `message`.
fn refuse(message: &str) -> (e: CommandError)
    ensures
        e@ == bad(message@),
{
    CommandError::Argument(message.to_owned())
}

/// The text that an argument stands for.
fn text_of(arg: &RespValue) -> (text: Option<String>)
    ensures
        optional_text(text) == arg_text(arg@),
{
    match arg {
        RespValue::Integer(n) => Some(decimal_string(*n as u128)),
        RespValue::SimpleString(text) => Some(text.clone()),
        RespValue::BulkString(text) => Some(text.clone()),
        _ => None,
    }
}

/// The argument at position `at` as text.
fn required_text(args: &Vec<RespValue>, at: usize, missing: &str) -> (r: Result<
    String,
    CommandError,
>)
    ensures
        text_outcome(r) == required(views(args@), at as int, missing@),
{
    if at >= args.len() {
        return Err(refuse(missing));
    }
    match text_of(&args[at]) {
        Some(text) => Ok(text),
        None => Err(refuse(NOT_TEXT)),
    }
}

/// The argument at position `at` as a number no larger than `max`.
fn required_number(args: &Vec<RespValue>, at: usize, missing: &str, max: u128) -> (r: Result<
    u128,
    CommandError,
>)
    ensures
        match r {
            Ok(n) => number_at(views(args@), at as int, missing@, max as nat) == Ok::<
                nat,
                CommandErrorView,
            >(n as nat) && n <= max,
            Err(e) => number_at(views(args@), at as int, missing@, max as nat) == Err::<
                nat,
                CommandErrorView,
            >(e@),
        },
{
    let text = match required_text(args, at, missing) {
        Ok(text) => text,
        Err(e) => {
            return Err(e);
        },
    };
    match read_unsigned(text.as_str(), max) {
        Some(n) => Ok(n),
        None => Err(refuse(NOT_NUMBER)),
    }
}

/// The argument at position `at` as an index of a list.
fn required_index(args: &Vec<RespValue>, at: usize, missing: &str) -> (r: Result<
    isize,
    CommandError,
>)
    ensures
        match r {
            Ok(n) => signed_at(
                views(args@),
                at as int,
                missing@,
                isize::MIN as int,
                isize::MAX as int,
            ) == Ok::<int, CommandErrorView>(n as int),
            Err(e) => signed_at(
                views(args@),
                at as int,
                missing@,
                isize::MIN as int,
                isize::MAX as int,
            ) == Err::<int, CommandErrorView>(e@),
        },
{
    let text = match required_text(args, at, missing) {
        Ok(text) => text,
        Err(e) => {
            return Err(e);
        },
    };
    match read_signed(text.as_str(), isize::MIN as i128, isize::MAX as i128) {
        Some(n) => Ok(n as isize),
        None => Err(refuse(NOT_NUMBER)),
    }
}

/// The texts of the arguments from position `from` on, if each of them stands for
/// one.
fn texts_from(args: &Vec<RespValue>, from: usize) -> (r: Option<Vec<String>>)
    requires
        from <= args.len(),
    ensures
        match r {
            Some(found) => all_texts(views(args@), from as int) && texts(found@) == rest_texts(
                views(args@),
                from as int,
            ),
            None => !all_texts(views(args@), from as int),
        },
{
    let mut found: Vec<String> = Vec::new();
    let mut i: usize = from;
    while i < args.len()
        invariant
            from <= i <= args.len(),
            found.len() == i - from,
            forall|j: int| from <= j < i ==> arg_text(#[trigger] views(args@)[j]) == Some(
                found[j - from]@,
            ),
        decreases args.len() - i,
    {
        match text_of(&args[i]) {
            Some(text) => {
                found.push(text);
            },
            None => {
                assert(arg_text(views(args@)[i as int]) is None);
                return None;
            },
        }
        i = i + 1;
    }
    Some(found)
}

/// Reads the arguments of `PING`.
fn read_ping(args: &Vec<RespValue>) -> (r: Result<Command, CommandError>)
    ensures
        outcome(r) == parse_ping(views(args@)),
{
    if args.len() > 0 {
        return Err(refuse("PING command takes no arguments"));
    }
    Ok(Command::Ping)
}

/// Reads the arguments of `ECHO`.
fn read_echo(args: &Vec<RespValue>) -> (r: Result<Command, CommandError>)
    ensures
        outcome(r) == parse_echo(views(args@)),
{
    let message = match required_text(args, 0, "ECHO command requires an argument") {
        Ok(v) => v,
        Err(e) => {
            return Err(e);
        },
    };
    Ok(Command::Echo { message })
}

/// Reads the arguments of `SET`.
fn read_set(args: &Vec<RespValue>) -> (r: Result<Command, CommandError>)
    ensures
        outcome(r) == parse_set(views(args@)),
{
    let key = match required_text(args, 0, "SET command requires a key") {
        Ok(v) => v,
        Err(e) => {
            return Err(e);
        },
    };
    let value = match required_text(args, 1, "SET command requires a value") {
        Ok(v) => v,
        Err(e) => {
            return Err(e);
        },
    };
    if args.len() <= 2 {
        return Ok(Command::SetValue { key, value, expiry_millis: None });
    }
    let option = match required_text(args, 2, NOT_TEXT) {
        Ok(v) => v,
        Err(e) => {
            return Err(e);
        },
    };
    let upper = to_upper(option.as_str());
    if !same_text(upper.as_str(), "PX") {
        return Err(
            refuse("Unknown argument after value. Expected 'PX' or end of command."),
        );
    }
    let text = match required_text(args, 3, "Missing milliseconds value for PX") {
        Ok(v) => v,
        Err(e) => {
            return Err(e);
        },
    };
    let millis = match read_unsigned(text.as_str(), u64::MAX as u128) {
        Some(millis) => millis as u64,
        None => {
            return Err(refuse("Invalid PX value"));
        },
    };
    if args.len() > 4 {
        return Err(refuse("Too many arguments for SET command"));
    }
    Ok(Command::SetValue { key, value, expiry_millis: Some(millis) })
}

/// Reads the arguments of `RPUSH`.
fn read_rpush(args: &Vec<RespValue>) -> (r: Result<Command, CommandError>)
    ensures
        outcome(r) == parse_rpush(views(args@)),
{
    let key = match required_text(args, 0, "RPUSH command requires a key") {
        Ok(v) => v,
        Err(e) => {
            return Err(e);
        },
    };
    if args.len() < 2 {
        return Err(refuse("RPUSH command requires at least one value"));
    }
    match texts_from(args, 1) {
        Some(values) => Ok(Command::Rpush { key, values }),
        None => Err(refuse(NOT_TEXT)),
    }
}

/// Reads the arguments of `LPUSH`.
fn read_lpush(args: &Vec<RespValue>) -> (r: Result<Command, CommandError>)
    ensures
        outcome(r) == parse_lpush(views(args@)),
{
    let key = match required_text(args, 0, "LPUSH command requires a key") {
        Ok(v) => v,
        Err(e) => {
            return Err(e);
        },
    };
    if args.len() < 2 {
        return Err(refuse("LPUSH command requires at least one value"));
    }
    match texts_from(args, 1) {
        Some(values) => Ok(Command::Lpush { key, values }),
        None => Err(refuse(NOT_TEXT)),
    }
}

/// Reads the arguments of `LPOP`.
fn read_lpop(args: &Vec<RespValue>) -> (r: Result<Command, CommandError>)
    ensures
        outcome(r) == parse_lpop(views(args@)),
{
    let key = match required_text(args, 0, "LPOP command requires a key") {
        Ok(v) => v,
        Err(e) => {
            return Err(e);
        },
    };
    if args.len() <= 1 {
        return Ok(Command::Lpop { key, count: None });
    }
    let count = match required_number(args, 1, NOT_NUMBER, usize::MAX as u128) {
        Ok(v) => v,
        Err(e) => {
            return Err(e);
        },
    };
    if args.len() > 2 {
        return Err(refuse("Too many arguments for LPOP command"));
    }
    Ok(Command::Lpop { key, count: Some(count as usize) })
}

/// Reads the arguments of `BLPOP`.
fn read_blpop(args: &Vec<RespValue>) -> (r: Result<Command, CommandError>)
    ensures
        outcome(r) == parse_blpop(views(args@)),
{
    let key = match required_text(args, 0, "BLPOP command requires a key") {
        Ok(v) => v,
        Err(e) => {
            return Err(e);
        },
    };
    if args.len() <= 1 {
        return Ok(Command::Blpop { key, timeout: Wait::Forever });
    }
    let text = match required_text(args, 1, NOT_TIMEOUT) {
        Ok(v) => v,
        Err(e) => {
            return Err(e);
        },
    };
    let timeout = match read_seconds(text.as_str()) {
        Some(timeout) => timeout,
        None => {
            return Err(refuse(NOT_TIMEOUT));
        },
    };
    if args.len() > 2 {
        return Err(refuse("Too many arguments for BLPOP command"));
    }
    Ok(Command::Blpop { key, timeout })
}

/// Reads the arguments of `LLEN`.
fn read_llen(args: &Vec<RespValue>) -> (r: Result<Command, CommandError>)
    ensures
        outcome(r) == parse_llen(views(args@)),
{
    let key = match required_text(args, 0, "LLEN command requires a key") {
        Ok(v) => v,
        Err(e) => {
            return Err(e);
        },
    };
    if args.len() > 1 {
        return Err(refuse("Too many arguments for LLEN command"));
    }
    Ok(Command::Llen { key })
}

/// Reads the arguments of `GET`.
fn read_get(args: &Vec<RespValue>) -> (r: Result<Command, CommandError>)
    ensures
        outcome(r) == parse_get(views(args@)),
{
    let key = match required_text(args, 0, "GET command requires a key") {
        Ok(v) => v,
        Err(e) => {
            return Err(e);
        },
    };
    if args.len() > 1 {
        return Err(refuse("Too many arguments for GET command"));
    }
    Ok(Command::Get { key })
}

/// Reads the arguments of `LRANGE`.
fn read_lrange(args: &Vec<RespValue>) -> (r: Result<Command, CommandError>)
    ensures
        outcome(r) == parse_lrange(views(args@)),
{
    let key = match required_text(args, 0, "LRANGE command requires a key") {
        Ok(v) => v,
        Err(e) => {
            return Err(e);
        },
    };
    let start = match required_index(args, 1, "LRANGE command requires a start value") {
        Ok(v) => v,
        Err(e) => {
            return Err(e);
        },
    };
    let stop = match required_index(args, 2, "LRANGE command requires a stop value") {
        Ok(v) => v,
        Err(e) => {
            return Err(e);
        },
    };
    if args.len() > 3 {
        return Err(refuse("Too many arguments for LRANGE command"));
    }
    Ok(Command::Lrange { key, start, stop })
}

/// Reads the arguments of `TYPE`.
fn read_type(args: &Vec<RespValue>) -> (r: Result<Command, CommandError>)
    ensures
        outcome(r) == parse_type(views(args@)),
{
    let key = match required_text(args, 0, "TYPE command requires a key") {
        Ok(v) => v,
        Err(e) => {
            return Err(e);
        },
    };
    Ok(Command::Type { key })
}

/// Reads the arguments of `XADD`.
fn read_xadd(args: &Vec<RespValue>) -> (r: Result<Command, CommandError>)
    ensures
        outcome(r) == parse_xadd(views(args@)),
{
    let key = match required_text(args, 0, "XADD command requires a key") {
        Ok(v) => v,
        Err(e) => {
            return Err(e);
        },
    };
    let id = match required_text(args, 1, "XADD command requires an id") {
        Ok(v) => v,
        Err(e) => {
            return Err(e);
        },
    };
    if (args.len() - 2) % 2 != 0 {
        return Err(refuse("XADD command requires an even number of field-value pairs"));
    }
    if args.len() == 2 {
        return Err(refuse("XADD command requires at least one field-value pair"));
    }
    let found = match texts_from(args, 2) {
        Some(found) => found,
        None => {
            return Err(refuse(NOT_TEXT));
        },
    };
    let mut field_value_pairs: Vec<(String, String)> = Vec::new();
    let mut i: usize = 0;
    while i < found.len() / 2
        invariant
            i <= found.len() / 2,
            field_value_pairs.len() == i,
            forall|j: int|
                0 <= j < i ==> (#[trigger] field_value_pairs[j]).0@ == found[2 * j]@
                    && field_value_pairs[j].1@ == found[2 * j + 1]@,
        decreases found.len() / 2 - i,
    {
        field_value_pairs.push((found[2 * i].clone(), found[2 * i + 1].clone()));
        i = i + 1;
    }
    assert(pairs_view(field_value_pairs@) =~= pairs_of(texts(found@)));
    Ok(Command::Xadd { key, id, field_value_pairs })
}

/// Reads the arguments of `XRANGE`.
fn read_xrange(args: &Vec<RespValue>) -> (r: Result<Command, CommandError>)
    ensures
        outcome(r) == parse_xrange(views(args@)),
{
    let key = match required_text(args, 0, "XRANGE command requires a key") {
        Ok(v) => v,
        Err(e) => {
            return Err(e);
        },
    };
    if args.len() <= 1 {
        return Ok(Command::Xrange { key, start: None, end: None });
    }
    let start = match required_text(args, 1, NOT_TEXT) {
        Ok(v) => v,
        Err(e) => {
            return Err(e);
        },
    };
    if args.len() <= 2 {
        return Ok(Command::Xrange { key, start: Some(start), end: None });
    }
    let end = match required_text(args, 2, NOT_TEXT) {
        Ok(v) => v,
        Err(e) => {
            return Err(e);
        },
    };
    Ok(Command::Xrange { key, start: Some(start), end: Some(end) })
}

/// Reads the streams of an `XREAD` whose keyword `STREAMS` stands at position
/// `at`.
fn read_streams(args: &Vec<RespValue>, at: usize, duration: XreadDuration) -> (r: Result<
    Command,
    CommandError,
>)
    requires
        at <= 2,
    ensures
        outcome(r) == parse_streams(views(args@), at as int, duration),
{
    let keyword = match required_text(args, at, "XREAD command requires stream or block as first arg") {
        Ok(v) => v,
        Err(e) => {
            return Err(e);
        },
    };
    let upper = to_upper(keyword.as_str());
    if !same_text(upper.as_str(), "STREAMS") {
        return Err(refuse("Expected 'streams' keyword"));
    }
    if (args.len() - at - 1) % 2 != 0 {
        return Err(refuse("XREAD STREAMS requires an even number of key-id pairs"));
    }
    if args.len() == at + 1 {
        return Err(refuse("XREAD STREAMS requires at least one key"));
    }
    let found = match texts_from(args, at + 1) {
        Some(found) => found,
        None => {
            return Err(refuse(NOT_TEXT));
        },
    };
    let half = found.len() / 2;
    let mut streams: Vec<(String, XreadStartId)> = Vec::new();
    let mut i: usize = 0;
    proof {
        reveal_strlit("$");
    }
    while i < half
        invariant
            half == found.len() / 2,
            i <= half,
            streams.len() == i,
            "$"@ == seq!['$'],
            forall|j: int|
                0 <= j < i ==> (#[trigger] streams[j]).0@ == found[j]@ && streams[j].1@
                    == start_of(found[half + j]@),
        decreases half - i,
    {
        let start = if same_text(found[half + i].as_str(), "$") {
            XreadStartId::Last
        } else {
            XreadStartId::Normal(found[half + i].clone())
        };
        streams.push((found[i].clone(), start));
        i = i + 1;
    }
    assert(streams_view(streams@) =~= streams_of(texts(found@)));
    Ok(Command::Xread { streams, duration })
}

/// Reads the arguments of `XREAD`.
fn read_xread(args: &Vec<RespValue>) -> (r: Result<Command, CommandError>)
    ensures
        outcome(r) == parse_xread(views(args@)),
{
    let first = match required_text(args, 0, "XREAD command requires stream or block as first arg") {
        Ok(v) => v,
        Err(e) => {
            return Err(e);
        },
    };
    let upper = to_upper(first.as_str());
    if same_text(upper.as_str(), "BLOCK") {
        let millis = match required_number(
            args,
            1,
            "XREAD command requires duration in millis after block",
            u64::MAX as u128,
        ) {
            Ok(v) => v,
            Err(e) => {
                return Err(e);
            },
        };
        let duration = if millis == 0 {
            XreadDuration::Inifnity
        } else {
            XreadDuration::Normal(millis as u64)
        };
        read_streams(args, 2, duration)
    } else {
        read_streams(args, 0, XreadDuration::Immediate)
    }
}

/// The command that the upper-case name `name` and the arguments `args`
/// stand for, or why they stand for none.
pub fn parse_command_upper(name: &str, args: Vec<RespValue>) -> (r: Result<Command, CommandError>)
    ensures
        outcome(r) == parse_upper(name@, views(args@)),
{
    if same_text(name, "PING") {
        read_ping(&args)
    } else if same_text(name, "ECHO") {
        read_echo(&args)
    } else if same_text(name, "SET") {
        read_set(&args)
    } else if same_text(name, "RPUSH") {
        read_rpush(&args)
    } else if same_text(name, "LPUSH") {
        read_lpush(&args)
    } else if same_text(name, "LPOP") {
        read_lpop(&args)
    } else if same_text(name, "BLPOP") {
        read_blpop(&args)
    } else if same_text(name, "LLEN") {
        read_llen(&args)
    } else if same_text(name, "GET") {
        read_get(&args)
    } else if same_text(name, "LRANGE") {
        read_lrange(&args)
    } else if same_text(name, "TYPE") {
        read_type(&args)
    } else if same_text(name, "XADD") {
        read_xadd(&args)
    } else if same_text(name, "XRANGE") {
        read_xrange(&args)
    } else if same_text(name, "XREAD") {
        read_xread(&args)
    } else {
        Err(CommandError::UnknownCommand(name.to_owned()))
    }
}

/// The command that `command_name`, in any case, and `args` stand for, or why
/// they stand for none.
pub fn parse_command(command_name: String, args: Vec<RespValue>) -> (r: Result<
    Command,
    CommandError,
>)
    ensures
        outcome(r) == parse(command_name@, views(args@)),
{
    let upper = to_upper(command_name.as_str());
    parse_command_upper(upper.as_str(), args)
}

/// The name and the arguments of the request that the array `value` holds.
pub open spec fn extract(value: RespView) -> Result<(Seq<char>, Seq<RespView>), CommandErrorView> {
    match value {
        RespView::Array(items) => if items.len() == 0 {
            Err(bad("Empty array received as command"@))
        } else {
            match items[0] {
                RespView::BulkString(name) => Ok((name, items.subrange(1, items.len() as int))),
                RespView::SimpleString(name) => Ok((name, items.subrange(1, items.len() as int))),
                _ => Err(bad("Expected command name to be a bulk or simple string"@)),
            }
        },
        _ => Err(bad("Unexpected command format"@)),
    }
}

/// The name of the command that the first item of a request holds.
fn unpack_bulk_str(value: RespValue) -> (r: Result<String, CommandError>)
    ensures
        text_outcome(r) == (match value@ {
            RespView::BulkString(name) => Ok(name),
            RespView::SimpleString(name) => Ok(name),
            _ => Err(bad("Expected command name to be a bulk or simple string"@)),
        }),
{
    match value {
        RespValue::BulkString(name) => Ok(name),
        RespValue::SimpleString(name) => Ok(name),
        _ => Err(refuse("Expected command name to be a bulk or simple string")),
    }
}

/// Splits a request into the name of the command and its arguments.
pub fn extract_command(value: RespValue) -> (r: Result<(String, Vec<RespValue>), CommandError>)
    ensures
        match r {
            Ok((name, args)) => extract(value@) == Ok::<
                (Seq<char>, Seq<RespView>),
                CommandErrorView,
            >((name@, views(args@))),
            Err(e) => extract(value@) == Err::<(Seq<char>, Seq<RespView>), CommandErrorView>(e@),
        },
{
    match value {
        RespValue::Array(items) => {
            proof {
                lemma_array_view(items);
            }
            let mut items = items;
            let ghost all = views(items@);
            if items.len() == 0 {
                return Err(refuse("Empty array received as command"));
            }
            let first = items.remove(0);
            assert(views(items@) =~= all.subrange(1, all.len() as int));
            match unpack_bulk_str(first) {
                Ok(name) => Ok((name, items)),
                Err(e) => Err(e),
            }
        },
        _ => Err(refuse("Unexpected command format")),
    }
}

/// The command that a request stands for, or the answer that says why it
/// stands for none.
pub open spec fn request(value: RespView) -> Result<CommandView, RespView> {
    match extract(value) {
        Err(e) => Err(RespView::SimpleError(e.message())),
        Ok((name, args)) => match parse(name, args) {
            Err(e) => Err(RespView::SimpleError(e.message())),
            Ok(command) => Ok(command),
        },
    }
}

/// The command that the request `value` stands for. A request that stands
/// for none is answered with an error that carries the reason; the
/// connection goes on.
pub fn read_request(value: RespValue) -> (r: Result<Command, RespValue>)
    ensures
        match r {
            Ok(command) => request(value@) == Ok::<CommandView, RespView>(command@),
            Err(reply) => request(value@) == Err::<CommandView, RespView>(reply@),
        },
{
    let (name, args) = match extract_command(value) {
        Ok(found) => found,
        Err(e) => {
            return Err(RespValue::SimpleError(e.message()));
        },
    };
    match parse_command(name, args) {
        Ok(command) => Ok(command),
        Err(e) => Err(RespValue::SimpleError(e.message())),
    }
}

} // verus!
