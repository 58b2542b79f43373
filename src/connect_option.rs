//! The options that the client sends in its `CONNECT` command.
use vstd::prelude::*;

verus! {

/// What the client tells the server about itself when it connects.
#[derive(Clone, Debug)]
pub struct ConnectOption {
    pub verbose: bool,
    pub pedantic: bool,
    pub ssl_required: bool,
    pub auth_token: String,
    pub user: String,
    pub pass: String,
    pub name: String,
    pub lang: String,
    pub version: String,
}

/// The text of an optional string: empty where it is absent.
pub open spec fn text_or_empty(s: Option<&str>) -> Seq<char> {
    match s {
        Some(v) => v@,
        None => Seq::empty(),
    }
}

/// The options with the given values and the fixed client identity.
pub open spec fn is_connect_option(
    r: ConnectOption,
    user: Seq<char>,
    pass: Seq<char>,
    verbose: bool,
    name: Seq<char>,
) -> bool {
    &&& r.verbose == verbose
    &&& !r.pedantic
    &&& !r.ssl_required
    &&& r.auth_token@ == Seq::<char>::empty()
    &&& r.user@ == user
    &&& r.pass@ == pass
    &&& r.name@ == name
    &&& r.lang@ == "Rust"@
    &&& r.version@ == "0.0.1"@
}

impl ConnectOption {
    /// Options with no credentials, acknowledgements off and the default client name.
    pub fn new() -> (r: ConnectOption)
        ensures
            is_connect_option(r, Seq::empty(), Seq::empty(), false, "simple-rust-nats-client"@),
    {
        Self::new_internal(None, None, None, None)
    }

    /// Options with credentials, an acknowledgement setting and a client name.
    ///
    /// With `verbose` the server acknowledges each command with `+OK`.
    pub fn new_with_param(user: &str, pass: &str, verbose: bool, appname: &str) -> (r: ConnectOption)
        ensures
            is_connect_option(r, user@, pass@, verbose, appname@),
    {
        Self::new_internal(Some(user), Some(pass), Some(verbose), Some(appname))
    }

    fn new_internal(
        user: Option<&str>,
        pass: Option<&str>,
        verbose: Option<bool>,
        appname: Option<&str>,
    ) -> (r: ConnectOption)
        ensures
            is_connect_option(
                r,
                text_or_empty(user),
                text_or_empty(pass),
                match verbose {
                    Some(v) => v,
                    None => false,
                },
                match appname {
                    Some(a) => a@,
                    None => "simple-rust-nats-client"@,
                },
            ),
    {
        let user = match user {
            Some(u) => u.to_owned(),
            None => String::new(),
        };
        let pass = match pass {
            Some(p) => p.to_owned(),
            None => String::new(),
        };
        let name = match appname {
            Some(a) => a.to_owned(),
            None => "simple-rust-nats-client".to_owned(),
        };
        ConnectOption {
            verbose: match verbose {
                Some(v) => v,
                None => false,
            },
            pedantic: false,
            ssl_required: false,
            auth_token: String::new(),
            user,
            pass,
            name,
            lang: "Rust".to_owned(),
            version: "0.0.1".to_owned(),
        }
    }
}

} // verus!
