//! The wire codec: one line of client input becomes a [`Command`], and an
//! [`Outcome`] becomes one line of output.
//!
//! A request line is split on whitespace into tokens. `set <key> <value...>`
//! (at least three tokens; the value tokens are rejoined with single spaces)
//! yields [`Command::Put`]; `get <key>` (exactly two tokens) yields
//! [`Command::Get`]; a wrong token count yields a malformed-request error that
//! names the count, and any other verb is an unknown-verb error. The verbs are
//! also accepted in upper case. An empty read is not a command at all — the
//! connection layer handles it — so the codec treats a line without tokens as
//! malformed.

use vstd::prelude::*;

use crate::dec_rep;
use crate::usize_to_string;

verus! {

use vstd::string::StrSliceExecFns;
use vstd::string::StringExecFns;

/// A request for the service, parsed from one line of input.
///
/// `Put` and `Get` come from clients; `Persist` and `Close` are control
/// commands that the background tasks submit through the same queue.
pub enum Command {
    Put(String, String),
    Get(String),
    Persist,
    Close,
}

/// The spec-level image of a [`Command`]: keys and values as character
/// sequences.
pub enum CommandModel {
    Put { key: Seq<char>, value: Seq<char> },
    Get { key: Seq<char> },
    Persist,
    Close,
}

impl View for Command {
    type V = CommandModel;

    open spec fn view(&self) -> CommandModel {
        match self {
            Command::Put(k, v) => CommandModel::Put { key: k@, value: v@ },
            Command::Get(k) => CommandModel::Get { key: k@ },
            Command::Persist => CommandModel::Persist,
            Command::Close => CommandModel::Close,
        }
    }
}

/// The reply the service returns for one processed command.
pub enum Outcome {
    Done,
    Value(String),
    NotFound(String),
}

/// The spec-level image of an [`Outcome`].
pub enum OutcomeModel {
    Done,
    Value(Seq<char>),
    NotFound(Seq<char>),
}

impl View for Outcome {
    type V = OutcomeModel;

    open spec fn view(&self) -> OutcomeModel {
        match self {
            Outcome::Done => OutcomeModel::Done,
            Outcome::Value(v) => OutcomeModel::Value(v@),
            Outcome::NotFound(k) => OutcomeModel::NotFound(k@),
        }
    }
}

/// A request line that could not be decoded. Reported to the client on its
/// own connection; the connection stays usable.
pub enum ProtocolError {
    Malformed(String),
    UnknownVerb(String),
}

/// The spec-level image of a [`ProtocolError`].
pub enum ErrorModel {
    Malformed(Seq<char>),
    UnknownVerb(Seq<char>),
}

impl View for ProtocolError {
    type V = ErrorModel;

    open spec fn view(&self) -> ErrorModel {
        match self {
            ProtocolError::Malformed(m) => ErrorModel::Malformed(m@),
            ProtocolError::UnknownVerb(v) => ErrorModel::UnknownVerb(v@),
        }
    }
}

/// The characters on which a request line is split into tokens.
pub open spec fn is_wspace(c: char) -> bool {
    c == ' ' || c == '\t' || c == '\r' || c == '\n' || c == '\u{b}' || c == '\u{c}'
}

fn wspace(c: char) -> (r: bool)
    ensures
        r == is_wspace(c),
{
    c == ' ' || c == '\t' || c == '\r' || c == '\n' || c == '\u{b}' || c == '\u{c}'
}

/// The tokens finished after scanning `s`, and the partial token that the
/// scan is still inside of.
pub open spec fn scan_tokens(s: Seq<char>) -> (Seq<Seq<char>>, Seq<char>)
    decreases s.len(),
{
    if s.len() == 0 {
        (Seq::empty(), Seq::empty())
    } else {
        let done = scan_tokens(s.drop_last()).0;
        let cur = scan_tokens(s.drop_last()).1;
        if is_wspace(s.last()) {
            if cur.len() == 0 {
                (done, Seq::empty())
            } else {
                (done.push(cur), Seq::empty())
            }
        } else {
            (done, cur.push(s.last()))
        }
    }
}

/// The whitespace-separated tokens of `s`, in order.
pub open spec fn tokens_of(s: Seq<char>) -> Seq<Seq<char>> {
    if scan_tokens(s).1.len() == 0 {
        scan_tokens(s).0
    } else {
        scan_tokens(s).0.push(scan_tokens(s).1)
    }
}

/// Splits `line` on whitespace into its tokens.
pub fn tokenize(line: &str) -> (r: Vec<String>)
    ensures
        r.deep_view() == tokens_of(line@),
{
    let n = line.unicode_len();
    let mut done: Vec<String> = Vec::new();
    let mut cur: String = String::new();
    let mut i: usize = 0;
    while i < n
        invariant
            n == line@.len(),
            i <= n,
            done.deep_view() == scan_tokens(line@.take(i as int)).0,
            cur@ == scan_tokens(line@.take(i as int)).1,
        decreases n - i,
    {
        let c = line.get_char(i);
        proof {
            assert(line@.take(i + 1).drop_last() =~= line@.take(i as int));
            assert(line@.take(i + 1).last() == c);
        }
        if wspace(c) {
            if !cur.as_str().is_empty() {
                done.push(cur);
                proof {
                    assert(done.deep_view() =~= scan_tokens(line@.take(i + 1)).0);
                }
            } else {
                proof {
                    assert(done.deep_view() =~= scan_tokens(line@.take(i + 1)).0);
                }
            }
            cur = String::new();
            proof {
                assert(cur@ =~= scan_tokens(line@.take(i + 1)).1);
            }
        } else {
            crate::push_char(&mut cur, c);
        }
        i = i + 1;
    }
    proof {
        assert(line@.take(n as int) =~= line@);
    }
    if !cur.as_str().is_empty() {
        done.push(cur);
        proof {
            assert(done.deep_view() =~= tokens_of(line@));
        }
    } else {
        proof {
            assert(done.deep_view() =~= tokens_of(line@));
        }
    }
    done
}

/// The tokens of `ts`, rejoined with single spaces.
pub open spec fn join_spaces(ts: Seq<Seq<char>>) -> Seq<char>
    decreases ts.len(),
{
    if ts.len() == 0 {
        Seq::empty()
    } else if ts.len() == 1 {
        ts[0]
    } else {
        ts[0] + seq![' '] + join_spaces(ts.drop_first())
    }
}

proof fn lemma_join_push(ts: Seq<Seq<char>>, t: Seq<char>)
    ensures
        join_spaces(ts.push(t)) == if ts.len() == 0 {
            t
        } else {
            join_spaces(ts) + seq![' '] + t
        },
    decreases ts.len(),
{
    if ts.len() == 0 {
        assert(ts.push(t)[0] == t);
    } else if ts.len() == 1 {
        assert(ts.push(t).drop_first() =~= seq![t]);
        assert(join_spaces(seq![t]) == t);
    } else {
        assert(ts.push(t).drop_first() =~= ts.drop_first().push(t));
        lemma_join_push(ts.drop_first(), t);
    }
}

/// Rejoins `tokens[start..]` with single spaces.
fn join_from(tokens: &Vec<String>, start: usize) -> (r: String)
    requires
        start <= tokens.len(),
    ensures
        r@ == join_spaces(tokens.deep_view().skip(start as int)),
{
    let ghost rest = tokens.deep_view().skip(start as int);
    let mut r = String::new();
    let mut j: usize = start;
    while j < tokens.len()
        invariant
            start <= j <= tokens.len(),
            rest == tokens.deep_view().skip(start as int),
            tokens.deep_view().len() == tokens.len(),
            r@ == join_spaces(rest.take(j - start)),
        decreases tokens.len() - j,
    {
        proof {
            assert(rest.take(j - start).push(tokens[j as int]@) =~= rest.take(j + 1 - start));
            lemma_join_push(rest.take(j - start), tokens[j as int]@);
        }
        if j > start {
            r.append(" ");
            proof {
                reveal_strlit(" ");
                assert(r@ =~= join_spaces(rest.take(j - start)) + seq![' ']);
            }
        }
        r.append(tokens[j].as_str());
        j = j + 1;
    }
    proof {
        assert(rest.take(tokens.len() - start) =~= rest);
    }
    r
}

/// The malformed-request message for a `set` line of `n` tokens.
pub open spec fn set_arity_error(n: nat) -> Seq<char> {
    "set: expected min 3 parts but received "@ + dec_rep(n)
}

/// The malformed-request message for a `get` line of `n` tokens.
pub open spec fn get_arity_error(n: nat) -> Seq<char> {
    "get: expected 2 parts but received "@ + dec_rep(n)
}

/// The malformed-request message for a line without tokens.
pub open spec fn empty_request_error() -> Seq<char> {
    "empty request"@
}

/// What `decode` returns for a line whose characters are `s`.
pub open spec fn decode_spec(s: Seq<char>) -> Result<CommandModel, ErrorModel> {
    let ts = tokens_of(s);
    if ts.len() == 0 {
        Err(ErrorModel::Malformed(empty_request_error()))
    } else if ts[0] == "set"@ || ts[0] == "SET"@ {
        if ts.len() >= 3 {
            Ok(CommandModel::Put { key: ts[1], value: join_spaces(ts.skip(2)) })
        } else {
            Err(ErrorModel::Malformed(set_arity_error(ts.len())))
        }
    } else if ts[0] == "get"@ || ts[0] == "GET"@ {
        if ts.len() == 2 {
            Ok(CommandModel::Get { key: ts[1] })
        } else {
            Err(ErrorModel::Malformed(get_arity_error(ts.len())))
        }
    } else {
        Err(ErrorModel::UnknownVerb(ts[0]))
    }
}

/// Decodes one request line into a command, or reports why it is invalid.
pub fn decode(line: &str) -> (r: Result<Command, ProtocolError>)
    ensures
        match (r, decode_spec(line@)) {
            (Ok(c), Ok(m)) => c@ == m,
            (Err(e), Err(m)) => e@ == m,
            _ => false,
        },
{
    let tokens = tokenize(line);
    let ghost ts = tokens_of(line@);
    if tokens.len() == 0 {
        return Err(ProtocolError::Malformed(String::from_str("empty request")));
    }
    let verb = &tokens[0];
    if *verb == String::from_str("set") || *verb == String::from_str("SET") {
        if tokens.len() >= 3 {
            let key = tokens[1].clone();
            let value = join_from(&tokens, 2);
            Ok(Command::Put(key, value))
        } else {
            let mut msg = String::from_str("set: expected min 3 parts but received ");
            let count = usize_to_string(tokens.len());
            msg.append(count.as_str());
            Err(ProtocolError::Malformed(msg))
        }
    } else if *verb == String::from_str("get") || *verb == String::from_str("GET") {
        if tokens.len() == 2 {
            let key = tokens[1].clone();
            Ok(Command::Get(key))
        } else {
            let mut msg = String::from_str("get: expected 2 parts but received ");
            let count = usize_to_string(tokens.len());
            msg.append(count.as_str());
            Err(ProtocolError::Malformed(msg))
        }
    } else {
        Err(ProtocolError::UnknownVerb(tokens[0].clone()))
    }
}

/// What `encode` returns for an outcome.
pub open spec fn encode_spec(o: OutcomeModel) -> Seq<char> {
    match o {
        OutcomeModel::Done => "response: ok\r\n"@,
        OutcomeModel::Value(v) => "response: value "@ + v + "\r\n"@,
        OutcomeModel::NotFound(k) => "response: not-found "@ + k + "\r\n"@,
    }
}

/// Renders an outcome as one terminated response line. The three outcome
/// forms get three distinct prefixes, so a client can tell them apart from
/// the line alone.
pub fn encode(o: &Outcome) -> (r: String)
    ensures
        r@ == encode_spec(o@),
{
    match o {
        Outcome::Done => String::from_str("response: ok\r\n"),
        Outcome::Value(v) => {
            let mut r = String::from_str("response: value ");
            r.append(v.as_str());
            r.append("\r\n");
            r
        },
        Outcome::NotFound(k) => {
            let mut r = String::from_str("response: not-found ");
            r.append(k.as_str());
            r.append("\r\n");
            r
        },
    }
}

/// What `encode_error` returns for a protocol error.
pub open spec fn error_line_spec(e: ErrorModel) -> Seq<char> {
    match e {
        ErrorModel::Malformed(m) => "bad request - "@ + m + "\r\n"@,
        ErrorModel::UnknownVerb(v) => "bad request - unknown verb: "@ + v + "\r\n"@,
    }
}

/// Renders a protocol error as one terminated bad-request line.
pub fn encode_error(e: &ProtocolError) -> (r: String)
    ensures
        r@ == error_line_spec(e@),
{
    match e {
        ProtocolError::Malformed(m) => {
            let mut r = String::from_str("bad request - ");
            r.append(m.as_str());
            r.append("\r\n");
            r
        },
        ProtocolError::UnknownVerb(v) => {
            let mut r = String::from_str("bad request - unknown verb: ");
            r.append(v.as_str());
            r.append("\r\n");
            r
        },
    }
}

} // verus!
