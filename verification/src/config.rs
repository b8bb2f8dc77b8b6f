//! The proxy's configuration.

use crate::failure::Failure;
use crate::text;
use crate::text::same_text;
use crate::upstream;
use crate::upstream::{parse_url, path_of_url, set_url_path};
use vstd::prelude::*;
use vstd::string::*;

verus! {

/// What the command line says. Paths are of the type `P`.
pub struct ServeArgs<P> {
    pub config: Option<P>,
    pub listen: Option<String>,
    pub homeserver: Option<String>,
    pub store_dir: Option<P>,
    pub log_level: Option<String>,
}

/// What the configuration file says.
pub struct FileConfig<P> {
    pub listen: Option<String>,
    pub homeserver: Option<String>,
    pub store_dir: Option<P>,
    pub log_level: Option<String>,
    pub store_passphrase: Option<String>,
    pub admin_token: Option<String>,
}

/// The configuration.
pub struct Config<P> {
    /// The address that the proxy listens on.
    pub listen: String,
    /// The homeserver's URL, without a path.
    pub homeserver: String,
    /// Where the crypto stores are.
    pub store_dir: P,
    pub log_level: String,
    pub store_passphrase: Option<String>,
    pub admin_token: Option<String>,
}

/// The first of two values that is there.
pub open spec fn first_of<A>(a: Option<A>, b: Option<A>) -> Option<A> {
    match a {
        Some(x) => Some(x),
        None => b,
    }
}

/// The value that is there, or a default.
pub open spec fn value_or(a: Option<Seq<char>>, default: Seq<char>) -> Seq<char> {
    match a {
        Some(x) => x,
        None => default,
    }
}

fn or_else<A>(a: Option<A>, b: Option<A>) -> (r: Option<A>)
    ensures
        r == first_of(a, b),
{
    match a {
        Some(x) => Some(x),
        None => b,
    }
}

fn text_or(a: Option<String>, b: Option<String>, default: &str) -> (r: String)
    ensures
        r@ == value_or(first_of(text::opt_text(a), text::opt_text(b)), default@),
{
    match a {
        Some(x) => x,
        None => match b {
            Some(x) => x,
            None => default.to_owned(),
        },
    }
}

/// Whether the configuration file is read. Without one that was asked for, the proxy does
/// not start; without the usual one, it does without.
pub fn reads_config(found: bool, asked_for: bool, shown: &str) -> (r: Result<bool, Failure>)
    ensures
        if found {
            r == Ok::<bool, Failure>(true)
        } else if asked_for {
            r matches Err(f) && f@ == seq!["config file "@ + shown@ + " does not exist"@]
        } else {
            r == Ok::<bool, Failure>(false)
        },
{
    if found {
        Ok(true)
    } else if asked_for {
        let message = "config file ".to_owned().concat(shown).concat(" does not exist");
        Err(Failure::new(message.as_str()))
    } else {
        Ok(false)
    }
}

/// The homeserver's URL, brought into its usual form: it must be a URL without a path.
pub open spec fn normalized_homeserver(given: Option<Seq<char>>) -> Result<
    Seq<char>,
    Seq<Seq<char>>,
> {
    match given {
        None => Err(
            seq![
                "no homeserver configured (set `homeserver` in config.toml or pass --homeserver)"@,
            ],
        ),
        Some(s) => match upstream::url_parsed(s) {
            Err(e) => Err(seq!["homeserver is not a valid URL"@, e]),
            Ok(url) => {
                let path = value_or(upstream::url_path(url), Seq::empty());
                if path != "/"@ && path.len() > 0 {
                    Err(seq!["homeserver URL must not have a path: "@ + url])
                } else {
                    Ok(value_or(upstream::url_with_path(url, Seq::empty()), url))
                }
            },
        },
    }
}

/// Brings a homeserver's URL into its usual form.
pub fn normalize_homeserver(given: Option<String>) -> (r: Result<String, Failure>)
    ensures
        match r {
            Ok(url) => normalized_homeserver(text::opt_text(given)) == Ok::<
                Seq<char>,
                Seq<Seq<char>>,
            >(url@),
            Err(f) => normalized_homeserver(text::opt_text(given)) == Err::<
                Seq<char>,
                Seq<Seq<char>>,
            >(f@),
        },
{
    proof {
        reveal_strlit("");
        assert(""@ =~= Seq::empty());
    }
    let given = match given {
        Some(s) => s,
        None => {
            return Err(
                Failure::new(
                    "no homeserver configured (set `homeserver` in config.toml or pass --homeserver)",
                ),
            );
        },
    };
    let url = match parse_url(given.as_str()) {
        Ok(url) => url,
        Err(e) => {
            let f = Failure::caused("homeserver is not a valid URL", e.as_str());
            return Err(f);
        },
    };
    let path = match path_of_url(url.as_str()) {
        Some(p) => p,
        None => "".to_owned(),
    };
    proof {
        if path@.len() == 0 {
            assert(path@ =~= ""@);
        }
    }
    if !same_text(path.as_str(), "/") && !same_text(path.as_str(), "") {
        let message = "homeserver URL must not have a path: ".to_owned().concat(url.as_str());
        return Err(Failure::new(message.as_str()));
    }
    match set_url_path(url.as_str(), "") {
        Some(bare) => Ok(bare),
        None => Ok(url),
    }
}

impl<P> Config<P> {
    /// Puts the configuration together: what the command line says comes first, then what
    /// the file says, then the defaults. The passphrase and the admin token come from the
    /// file alone.
    pub fn load(args: ServeArgs<P>, file: FileConfig<P>, default_store_dir: Option<P>) -> (r: Result<
        Config<P>,
        Failure,
    >)
        ensures
            ({
                let homeserver = normalized_homeserver(
                    first_of(text::opt_text(args.homeserver), text::opt_text(file.homeserver)),
                );
                let store_dir = first_of(first_of(args.store_dir, file.store_dir), default_store_dir);
                match (homeserver, store_dir) {
                    (Err(f), _) => r matches Err(e) && e@ == f,
                    (Ok(_), None) => r matches Err(e) && e@ == seq![
                        "could not determine store directory"@,
                    ],
                    (Ok(url), Some(dir)) => {
                        &&& r matches Ok(c)
                        &&& c.homeserver@ == url
                        &&& c.store_dir == dir
                        &&& c.listen@ == value_or(
                            first_of(text::opt_text(args.listen), text::opt_text(file.listen)),
                            "127.0.0.1:8009"@,
                        )
                        &&& c.log_level@ == value_or(
                            first_of(
                                text::opt_text(args.log_level),
                                text::opt_text(file.log_level),
                            ),
                            "info"@,
                        )
                        &&& text::opt_text(c.store_passphrase) == text::opt_text(
                            file.store_passphrase,
                        )
                        &&& text::opt_text(c.admin_token) == text::opt_text(file.admin_token)
                    },
                }
            }),
    {
        let homeserver = match normalize_homeserver(or_else(args.homeserver, file.homeserver)) {
            Ok(url) => url,
            Err(f) => {
                return Err(f);
            },
        };
        let store_dir = match or_else(or_else(args.store_dir, file.store_dir), default_store_dir) {
            Some(dir) => dir,
            None => {
                return Err(Failure::new("could not determine store directory"));
            },
        };
        Ok(
            Config {
                listen: text_or(args.listen, file.listen, "127.0.0.1:8009"),
                homeserver,
                store_dir,
                log_level: text_or(args.log_level, file.log_level, "info"),
                store_passphrase: file.store_passphrase,
                admin_token: file.admin_token,
            },
        )
    }
}

/// What is given on the command line wins over the file, and the file over the default.
pub proof fn command_line_wins(
    args: Option<Seq<char>>,
    file: Option<Seq<char>>,
    default: Seq<char>,
)
    ensures
        args is Some ==> value_or(first_of(args, file), default) == args->0,
        args is None && file is Some ==> value_or(first_of(args, file), default) == file->0,
        args is None && file is None ==> value_or(first_of(args, file), default) == default,
{
}

} // verus!
