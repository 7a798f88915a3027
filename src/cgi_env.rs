//! The CGI/1.1 environment handed to the program: a map from variable names to values,
//! built up while the request is read.
use vstd::prelude::*;
use vstd::string::StringExecFns;
use crate::HTTP;
use crate::header::{has_colon, header_name, header_value, parse_header};
use crate::text::{parse_usize, usize_of_decimal};

verus! {

/// The map that a list of bindings gives when they are applied in order, a later
/// binding of a name replacing an earlier one.
pub open spec fn bindings_map(s: Seq<(Seq<char>, Seq<char>)>) -> Map<Seq<char>, Seq<char>>
    decreases s.len(),
{
    if s.len() == 0 {
        Map::empty()
    } else {
        bindings_map(s.drop_last()).insert(s.last().0, s.last().1)
    }
}

/// The bindings of a list of string pairs, as character sequences.
pub open spec fn pairs_view(v: Seq<(String, String)>) -> Seq<(Seq<char>, Seq<char>)> {
    Seq::new(v.len(), |i: int| (v[i].0@, v[i].1@))
}

/// Bindings after position `i` that do not name `k` leave its entry as it was at `i`.
proof fn lemma_bindings_prefix(s: Seq<(Seq<char>, Seq<char>)>, k: Seq<char>, i: int)
    requires
        0 <= i <= s.len(),
        forall|j: int| i <= j < s.len() ==> s[j].0 != k,
    ensures
        bindings_map(s).contains_key(k) == bindings_map(s.take(i)).contains_key(k),
        bindings_map(s).contains_key(k) ==> bindings_map(s)[k] == bindings_map(s.take(i))[k],
    decreases s.len(),
{
    if s.len() > i {
        assert(s.drop_last() =~= s.take(s.len() - 1));
        assert(s.take(i) == s.drop_last().take(i));
        lemma_bindings_prefix(s.drop_last(), k, i);
    } else {
        assert(s.take(i) == s);
    }
}

/// The environment of the CGI program.
pub struct CgiEnv {
    vars: Vec<(String, String)>,
}

impl View for CgiEnv {
    type V = Map<Seq<char>, Seq<char>>;

    closed spec fn view(&self) -> Map<Seq<char>, Seq<char>> {
        bindings_map(pairs_view(self.vars@))
    }
}

impl CgiEnv {
    /// An environment with no variable.
    pub fn new() -> (r: CgiEnv)
        ensures
            r@ == Map::<Seq<char>, Seq<char>>::empty(),
    {
        CgiEnv { vars: Vec::new() }
    }

    /// The environment before any request data: the gateway's identity, and the address
    /// and port of the server, `127.0.0.1` and `80` where the supervisor gave none.
    pub fn for_server(local_ip: Option<String>, local_port: Option<String>) -> (r: CgiEnv)
        ensures
            r@ == Map::<Seq<char>, Seq<char>>::empty().insert(
                "GATEWAY_INTERFACE"@,
                "CGI/1.1"@,
            ).insert("SERVER_SOFTWARE"@, "cgid/0.1.0"@).insert(
                "SERVER_NAME"@,
                match local_ip {
                    Some(ip) => ip@,
                    None => "127.0.0.1"@,
                },
            ).insert(
                "SERVER_PORT"@,
                match local_port {
                    Some(port) => port@,
                    None => "80"@,
                },
            ),
    {
        let mut env = CgiEnv::new();
        env.set(String::from_str("GATEWAY_INTERFACE"), String::from_str("CGI/1.1"));
        env.set(String::from_str("SERVER_SOFTWARE"), String::from_str("cgid/0.1.0"));
        let name = match local_ip {
            Some(ip) => ip,
            None => String::from_str("127.0.0.1"),
        };
        env.set(String::from_str("SERVER_NAME"), name);
        let port = match local_port {
            Some(port) => port,
            None => String::from_str("80"),
        };
        env.set(String::from_str("SERVER_PORT"), port);
        env
    }

    /// Sets `key` to `value`, replacing what `key` had.
    pub fn set(&mut self, key: String, value: String)
        ensures
            final(self)@ == old(self)@.insert(key@, value@),
    {
        let ghost k = key@;
        let ghost v = value@;
        self.vars.push((key, value));
        assert(pairs_view(self.vars@).drop_last() == pairs_view(old(self).vars@));
    }

    /// The value of `key`, if it is set.
    pub fn get(&self, key: &str) -> (r: Option<String>)
        ensures
            r is Some <==> self@.contains_key(key@),
            r matches Some(v) ==> v@ == self@[key@],
    {
        let ghost s = pairs_view(self.vars@);
        let wanted = key.to_owned();
        let mut i = self.vars.len();
        while i > 0
            invariant
                i <= self.vars.len(),
                s == pairs_view(self.vars@),
                wanted@ == key@,
                forall|j: int| i <= j < s.len() ==> s[j].0 != key@,
            decreases i,
        {
            let entry = &self.vars[i - 1];
            if entry.0 == wanted {
                proof {
                    lemma_bindings_prefix(s, key@, i as int);
                    assert(s.take(i as int).last() == s[i - 1]);
                }
                return Some(entry.1.clone());
            }
            i = i - 1;
        }
        proof {
            lemma_bindings_prefix(s, key@, 0);
        }
        None
    }

    /// The bindings in the order they were made; setting them in that order gives
    /// this environment.
    pub fn entries(&self) -> (r: &Vec<(String, String)>)
        ensures
            bindings_map(pairs_view(r@)) == self@,
    {
        &self.vars
    }
}

/// The variable under which a header of normalised name `name` is stored:
/// `CONTENT_TYPE` and `CONTENT_LENGTH` as they are, any other as `HTTP_` and the name.
pub open spec fn env_key_for(name: Seq<char>) -> Seq<char> {
    if name == "CONTENT_TYPE"@ || name == "CONTENT_LENGTH"@ {
        name
    } else {
        "HTTP_"@ + name
    }
}

/// Whether a header is refused: a `CONTENT_LENGTH` whose value is no decimal `usize`.
pub open spec fn field_refused(name: Seq<char>, value: Seq<char>) -> bool {
    name == "CONTENT_LENGTH"@ && usize_of_decimal(value) is None
}

/// The body length after a header has been taken in.
pub open spec fn length_after(name: Seq<char>, value: Seq<char>, length: usize) -> usize {
    if name == "CONTENT_LENGTH"@ {
        usize_of_decimal(value).unwrap()
    } else {
        length
    }
}

/// Stores one parsed header, of normalised name `name`, in the environment. A
/// `CONTENT_LENGTH` also sets the body length, and fails with a client error when its
/// value is not a decimal `usize`; nothing changes then.
pub fn set_field(name: &String, value: String, content_length: &mut usize, env: &mut CgiEnv) -> (r:
    Result<(), HTTP>)
    ensures
        r is Err <==> field_refused(name@, value@),
        r matches Err(e) ==> e == HTTP::_400 && final(env)@ == old(env)@ && *final(content_length)
            == *old(content_length),
        r is Ok ==> final(env)@ == old(env)@.insert(env_key_for(name@), value@)
            && *final(content_length) == length_after(name@, value@, *old(content_length)),
{
    proof {
        reveal_strlit("CONTENT_TYPE");
        reveal_strlit("CONTENT_LENGTH");
        reveal_strlit("HTTP_");
        assert("CONTENT_TYPE"@[8] != "CONTENT_LENGTH"@[8]);
    }
    let content_type = String::from_str("CONTENT_TYPE");
    let content_len = String::from_str("CONTENT_LENGTH");
    if *name == content_type {
        env.set(content_type, value);
    } else if *name == content_len {
        match parse_usize(value.as_str()) {
            Some(n) => {
                *content_length = n;
                env.set(content_len, value);
            },
            None => {
                return Err(HTTP::_400);
            },
        }
    } else {
        let key = String::from_str("HTTP_").concat(name.as_str());
        env.set(key, value);
    }
    Ok(())
}

/// Parses a request header line and stores it in the environment as `set_field` does.
/// A line without `:` is a client error and changes nothing.
pub fn set_header(line: String, content_length: &mut usize, env: &mut CgiEnv) -> (r: Result<
    (),
    HTTP,
>)
    ensures
        r is Err <==> !has_colon(line@) || field_refused(header_name(line@), header_value(line@)),
        r matches Err(e) ==> e == HTTP::_400 && final(env)@ == old(env)@ && *final(content_length)
            == *old(content_length),
        r is Ok ==> final(env)@ == old(env)@.insert(
            env_key_for(header_name(line@)),
            header_value(line@),
        ) && *final(content_length) == length_after(
            header_name(line@),
            header_value(line@),
            *old(content_length),
        ),
{
    match parse_header(&line) {
        Ok((name, value)) => set_field(&name, value, content_length, env),
        Err(_) => Err(HTTP::_400),
    }
}

} // verus!
