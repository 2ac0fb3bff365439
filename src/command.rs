//! Wire text of each database command: a verb followed by its non-empty
//! arguments, each preceded by one space.

use vstd::prelude::*;

verus! {

/// The arguments of a command, each joined onto the line with one leading
/// space; an empty argument contributes nothing.
pub open spec fn join_args(args: Seq<Seq<char>>) -> Seq<char>
    decreases args.len(),
{
    if args.len() == 0 {
        Seq::empty()
    } else {
        let rest = join_args(args.drop_last());
        if args.last().len() == 0 {
            rest
        } else {
            rest + seq![' '] + args.last()
        }
    }
}

/// The full wire line of a command.
pub open spec fn command_line(verb: Seq<char>, args: Seq<Seq<char>>) -> Seq<char> {
    verb + join_args(args)
}

/// The text of an optional argument: an omitted one reads as empty.
pub open spec fn opt_text(o: Option<&str>) -> Seq<char> {
    match o {
        Some(s) => s@,
        None => Seq::empty(),
    }
}

/// The views of a list of string arguments.
pub open spec fn texts(args: Seq<&str>) -> Seq<Seq<char>> {
    args.map_values(|a: &str| a@)
}

/// An omitted trailing argument adds nothing to the line, so in particular
/// no trailing space.
pub proof fn lemma_omitted_argument_adds_nothing(verb: Seq<char>, args: Seq<Seq<char>>)
    ensures
        command_line(verb, args.push(Seq::empty())) == command_line(verb, args),
{
    assert(args.push(Seq::empty()).drop_last() == args);
}

/// A line whose last argument is non-empty ends with exactly that argument,
/// preceded by a single space.
pub proof fn lemma_last_argument_ends_line(verb: Seq<char>, args: Seq<Seq<char>>, a: Seq<char>)
    requires
        a.len() > 0,
    ensures
        command_line(verb, args.push(a)) == command_line(verb, args) + seq![' '] + a,
{
    assert(args.push(a).drop_last() == args);
    assert(args.push(a).last() == a);
}

/// Formats `verb` followed by each non-empty argument, in order, each after
/// a single space.
pub fn format_command(verb: &str, args: &Vec<&str>) -> (r: String)
    ensures
        r@ == command_line(verb@, texts(args@)),
{
    let mut r = String::from_str(verb);
    let mut i: usize = 0;
    while i < args.len()
        invariant
            i <= args.len(),
            r@ == command_line(verb@, texts(args@.subrange(0, i as int))),
        decreases args.len() - i,
    {
        let a: &str = args[i];
        proof {
            assert(args@.subrange(0, i as int + 1).drop_last() == args@.subrange(0, i as int));
            assert(texts(args@.subrange(0, i as int + 1)).drop_last() == texts(
                args@.subrange(0, i as int),
            ));
        }
        if !a.is_empty() {
            r.append(" ");
            r.append(a);
            proof {
                reveal_strlit(" ");
            }
        }
        assert(r@ == command_line(verb@, texts(args@.subrange(0, i as int + 1))));
        i = i + 1;
    }
    assert(args@.subrange(0, args@.len() as int) == args@);
    r
}

fn or_empty(o: Option<&str>) -> (r: &str)
    ensures
        r@ == opt_text(o),
{
    match o {
        Some(s) => s,
        None => {
            proof {
                reveal_strlit("");
            }
            ""
        },
    }
}

/// `SET key value`
pub fn set(key: &str, value: &str) -> (r: String)
    ensures
        r@ == command_line("SET"@, seq![key@, value@]),
{
    let args = vec![key, value];
    assert(texts(args@) == seq![key@, value@]);
    format_command("SET", &args)
}

/// `INCR key value`
pub fn incr(key: &str, value: &str) -> (r: String)
    ensures
        r@ == command_line("INCR"@, seq![key@, value@]),
{
    let args = vec![key, value];
    assert(texts(args@) == seq![key@, value@]);
    format_command("INCR", &args)
}

/// `DECR key value`
pub fn decr(key: &str, value: &str) -> (r: String)
    ensures
        r@ == command_line("DECR"@, seq![key@, value@]),
{
    let args = vec![key, value];
    assert(texts(args@) == seq![key@, value@]);
    format_command("DECR", &args)
}

/// `DEL key`
pub fn delete(key: &str) -> (r: String)
    ensures
        r@ == command_line("DEL"@, seq![key@]),
{
    let args = vec![key];
    assert(texts(args@) == seq![key@]);
    format_command("DEL", &args)
}

/// `COUNT key`
pub fn count(key: &str) -> (r: String)
    ensures
        r@ == command_line("COUNT"@, seq![key@]),
{
    let args = vec![key];
    assert(texts(args@) == seq![key@]);
    format_command("COUNT", &args)
}

/// `SUB key`
pub fn sub(key: &str) -> (r: String)
    ensures
        r@ == command_line("SUB"@, seq![key@]),
{
    let args = vec![key];
    assert(texts(args@) == seq![key@]);
    format_command("SUB", &args)
}

/// `UNSUB key`
pub fn unsub(key: &str) -> (r: String)
    ensures
        r@ == command_line("UNSUB"@, seq![key@]),
{
    let args = vec![key];
    assert(texts(args@) == seq![key@]);
    format_command("UNSUB", &args)
}

/// `INDICES action [key] [value]`: an omitted argument leaves no gap and no
/// trailing space.
pub fn indices(action: &str, key: Option<&str>, value: Option<&str>) -> (r: String)
    ensures
        r@ == command_line("INDICES"@, seq![action@, opt_text(key), opt_text(value)]),
{
    let args = vec![action, or_empty(key), or_empty(value)];
    assert(texts(args@) == seq![action@, opt_text(key), opt_text(value)]);
    format_command("INDICES", &args)
}

/// `QUERY key [query_string] [options]`: an omitted argument leaves no gap and no
/// trailing space.
pub fn query(key: &str, query_string: Option<&str>, options: Option<&str>) -> (r: String)
    ensures
        r@ == command_line("QUERY"@, seq![key@, opt_text(query_string), opt_text(options)]),
{
    let args = vec![key, or_empty(query_string), or_empty(options)];
    assert(texts(args@) == seq![key@, opt_text(query_string), opt_text(options)]);
    format_command("QUERY", &args)
}

/// `SCHEDULE action [cron_or_key] [command]`: an omitted argument leaves no gap and no
/// trailing space.
pub fn schedule(action: &str, cron_or_key: Option<&str>, command: Option<&str>) -> (r: String)
    ensures
        r@ == command_line("SCHEDULE"@, seq![action@, opt_text(cron_or_key), opt_text(command)]),
{
    let args = vec![action, or_empty(cron_or_key), or_empty(command)];
    assert(texts(args@) == seq![action@, opt_text(cron_or_key), opt_text(command)]);
    format_command("SCHEDULE", &args)
}

} // verus!
