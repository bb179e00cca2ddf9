//! The decisions of the command-line commands. Argument parsing, printing and
//! I/O stay with the caller, which hands plain values in and gets plain values
//! back.

use vstd::prelude::*;

use crate::codec::{decode_spec, encode, encode_spec};
use crate::flights::{
    overlay_spec, reports, resolve_spec, FlightOverlay, Flights, Resolution, ResolutionError,
};
use crate::kv::{Directory, Key};
use crate::paging::{start_spec, RangeQuery, RangeQueryContext};
use crate::restrict::METADATA_API_URL;
use crate::web::{join_url, url_join};
use crate::text::{opt_view, push_str};

verus! {

/// How results are printed.
#[derive(Clone, Copy, Debug, PartialEq, Eq, Structural)]
pub enum OutputFormat {
    Table,
    Json,
}

impl OutputFormat {
    pub open spec fn spec_name(self) -> Seq<char> {
        match self {
            OutputFormat::Table => "table"@,
            OutputFormat::Json => "json"@,
        }
    }

    pub fn as_str(&self) -> (s: &'static str)
        ensures
            s@ == self.spec_name(),
    {
        match self {
            OutputFormat::Table => "table",
            OutputFormat::Json => "json",
        }
    }
}

/// Errors in the arguments of a command.
#[derive(Debug, PartialEq, Eq)]
pub enum CliError {
    /// Two arguments that cannot be given together.
    ConflictingArguments(String, String),
    /// An argument announced as base64 that is not valid URL-safe base64.
    InvalidBase64(String),
    /// A URL could not be formed from the arguments.
    InvalidUrl,
}

/// Edits a Flight definition of the local store.
#[derive(Clone, Copy, Debug)]
pub struct SeaplaneFlightEdit;

impl SeaplaneFlightEdit {
    /// Resolves `name_id` among the stored Flights and applies the overlay to
    /// it. On failure the store is untouched, so nothing is written back.
    pub fn run(&self, flights: &mut Flights, name_id: &str, exact: bool, overlay: &FlightOverlay) -> (r:
        Result<(), ResolutionError>)
        requires
            old(flights).wf(),
        ensures
            final(flights).wf(),
            match resolve_spec(old(flights)@, name_id@, exact) {
                Resolution::Found(i) => r is Ok && final(flights)@ == old(flights)@.update(
                    i,
                    overlay_spec(old(flights)@[i], overlay@),
                ),
                res => final(flights)@ == old(flights)@ && match r {
                    Ok(_) => false,
                    Err(e) => reports(e, old(flights)@, res),
                },
            },
    {
        flights.update_flight(name_id, exact, overlay)
    }
}

/// Creates a Flight definition from a template.
#[derive(Clone, Copy, Debug)]
pub struct SeaplaneFlightTemplate;

/// The metadata key-value store commands.
#[derive(Clone, Copy, Debug)]
pub struct SeaplaneMetadata;

/// The subcommands of the metadata command.
#[derive(Clone, Copy, Debug, PartialEq, Eq, Structural)]
pub enum MetadataCmd {
    GetValue,
    SetValue,
    Delete,
    List,
}

impl SeaplaneMetadata {
    /// The subcommand that a name selects.
    pub fn next_subcmd(name: &str) -> (r: Option<MetadataCmd>)
        ensures
            r == (if name@ == "get"@ {
                Some(MetadataCmd::GetValue)
            } else if name@ == "set"@ {
                Some(MetadataCmd::SetValue)
            } else if name@ == "delete"@ {
                Some(MetadataCmd::Delete)
            } else if name@ == "list"@ {
                Some(MetadataCmd::List)
            } else {
                None::<MetadataCmd>
            }),
    {
        let name = name.to_owned();
        if name == "get".to_owned() {
            Some(MetadataCmd::GetValue)
        } else if name == "set".to_owned() {
            Some(MetadataCmd::SetValue)
        } else if name == "delete".to_owned() {
            Some(MetadataCmd::Delete)
        } else if name == "list".to_owned() {
            Some(MetadataCmd::List)
        } else {
            None
        }
    }
}

/// Deletes metadata key-value pairs.
#[derive(Clone, Copy, Debug)]
pub struct SeaplaneMetadataDelete;

/// The path, under the metadata service root, of the value stored under `key`.
pub open spec fn key_value_path(key: Seq<u8>) -> Seq<char> {
    "v1/config/base64:"@ + encode_spec(key)
}

impl SeaplaneMetadataDelete {
    /// The URL of the value stored under a key given as an argument: base64
    /// text where `base64` is set, else the text's own bytes.
    pub fn key_url(key: &String, base64: bool) -> (r: Result<String, CliError>)
        ensures
            match arg_bytes(key@, base64) {
                None => r matches Err(CliError::InvalidBase64(t)) && t@ == key@,
                Some(b) => match url_join(METADATA_API_URL@, key_value_path(b)) {
                    Some(u) => r matches Ok(s) && s@ == u,
                    None => r matches Err(CliError::InvalidUrl),
                },
            },
    {
        let bytes = match arg_to_bytes(key, base64) {
            Some(b) => b,
            None => return Err(CliError::InvalidBase64(key.clone())),
        };
        let mut path = "v1/config/base64:".to_owned();
        push_str(&mut path, encode(bytes.as_slice()).as_str());
        match join_url(METADATA_API_URL, path.as_str()) {
            Some(u) => Ok(u),
            None => Err(CliError::InvalidUrl),
        }
    }

    /// The ending of "item" in the closing report for `count` removed pairs.
    pub fn item_suffix(count: usize) -> (s: &'static str)
        ensures
            count > 1 ==> s@ == "s"@,
            count <= 1 ==> s@ == ""@,
    {
        if count > 1 {
            "s"
        } else {
            ""
        }
    }
}

/// Lists metadata key-value pairs.
#[derive(Clone, Copy, Debug)]
pub struct SeaplaneMetadataList;

/// The arguments of the list command as given.
#[derive(Debug)]
pub struct MetadataListArgs {
    pub base64: bool,
    pub decode: bool,
    pub decode_safe: bool,
    pub no_decode: bool,
    pub only_values: bool,
    pub only_keys: bool,
    pub no_header: bool,
    pub human_readable: bool,
    pub keys_width_limit: usize,
    pub values_width_limit: usize,
    pub from: Option<String>,
    pub dir: Option<String>,
    pub format: OutputFormat,
}

/// The settings of the list command.
#[derive(Debug)]
pub struct MetadataCtx {
    pub base64: bool,
    pub decode: bool,
    pub decode_safe: bool,
    pub no_decode: bool,
    pub no_keys: bool,
    pub no_values: bool,
    pub no_header: bool,
    pub keys_width_limit: usize,
    pub values_width_limit: usize,
    pub from: Option<Key>,
    pub directory: Option<Directory>,
    pub format: OutputFormat,
}

/// The bytes an argument stands for: its base64 decoding where the arguments
/// are announced as base64, else the UTF-8 bytes of the text itself.
pub open spec fn arg_bytes(text: Seq<char>, base64: bool) -> Option<Seq<u8>> {
    if base64 {
        decode_spec(text)
    } else {
        Some(vstd::utf8::encode_utf8(text))
    }
}

/// Whether an optional argument was turned into the optional bytes `got`.
pub open spec fn arg_taken(arg: Option<String>, base64: bool, got: Option<Seq<u8>>) -> bool {
    match arg {
        None => got is None,
        Some(t) => arg_bytes(t@, base64) is Some && got == arg_bytes(t@, base64),
    }
}

pub open spec fn arg_valid(arg: Option<String>, base64: bool) -> bool {
    match arg {
        None => true,
        Some(t) => arg_bytes(t@, base64) is Some,
    }
}

fn arg_to_bytes(text: &String, base64: bool) -> (r: Option<Vec<u8>>)
    ensures
        match r {
            Some(b) => arg_bytes(text@, base64) == Some(b@),
            None => arg_bytes(text@, base64) is None,
        },
{
    if base64 {
        match crate::codec::decode(text.as_str()) {
            Ok(b) => Some(b),
            Err(_) => None,
        }
    } else {
        let bytes = text.as_str().as_bytes();
        let mut v: Vec<u8> = Vec::new();
        let mut i: usize = 0;
        while i < bytes.len()
            invariant
                i <= bytes@.len(),
                v@ == bytes@.take(i as int),
            decreases bytes.len() - i,
        {
            v.push(bytes[i]);
            i = i + 1;
        }
        assert(v@ =~= bytes@);
        Some(v)
    }
}

impl SeaplaneMetadataList {
    /// Turns the arguments into settings. `--decode` only goes with the table
    /// format; with no decoding flag, `--human-readable` asks for safe decoding.
    pub fn update_ctx(&self, args: &MetadataListArgs) -> (r: Result<MetadataCtx, CliError>)
        ensures
            args.decode && args.format != OutputFormat::Table ==> (r matches Err(
                CliError::ConflictingArguments(a, b),
            ) && a@ == "--decode"@ && b@ == "--format "@ + args.format.spec_name()),
            !(args.decode && args.format != OutputFormat::Table) && (!arg_valid(
                args.from,
                args.base64,
            ) || !arg_valid(args.dir, args.base64)) ==> r matches Err(CliError::InvalidBase64(_)),
            r matches Ok(ctx) ==> {
                &&& !(args.decode && args.format != OutputFormat::Table)
                &&& ctx.base64 == args.base64
                &&& ctx.decode == args.decode
                &&& ctx.decode_safe == (args.decode_safe || (args.human_readable && !(args.decode
                    || args.no_decode)))
                &&& ctx.no_decode == args.no_decode
                &&& ctx.no_keys == args.only_values
                &&& ctx.no_values == args.only_keys
                &&& ctx.no_header == args.no_header
                &&& ctx.keys_width_limit == args.keys_width_limit
                &&& ctx.values_width_limit == args.values_width_limit
                &&& ctx.format == args.format
                &&& arg_taken(args.from, args.base64, opt_view(ctx.from))
                &&& arg_taken(args.dir, args.base64, opt_view(ctx.directory))
            },
            r is Err ==> (args.decode && args.format != OutputFormat::Table) || !arg_valid(
                args.from,
                args.base64,
            ) || !arg_valid(args.dir, args.base64),
    {
        if args.decode && args.format != OutputFormat::Table {
            let mut format_arg = "--format ".to_owned();
            push_str(&mut format_arg, args.format.as_str());
            return Err(CliError::ConflictingArguments("--decode".to_owned(), format_arg));
        }
        let from = match &args.from {
            Some(t) => match arg_to_bytes(t, args.base64) {
                Some(b) => Some(Key::from_unencoded(b)),
                None => return Err(CliError::InvalidBase64(t.clone())),
            },
            None => None,
        };
        let directory = match &args.dir {
            Some(t) => match arg_to_bytes(t, args.base64) {
                Some(b) => Some(Directory::from_unencoded(b)),
                None => return Err(CliError::InvalidBase64(t.clone())),
            },
            None => None,
        };
        let decode_safe = args.decode_safe || (args.human_readable && !(args.decode
            || args.no_decode));
        Ok(
            MetadataCtx {
                base64: args.base64,
                decode: args.decode,
                decode_safe,
                no_decode: args.no_decode,
                no_keys: args.only_values,
                no_values: args.only_keys,
                no_header: args.no_header,
                keys_width_limit: args.keys_width_limit,
                values_width_limit: args.values_width_limit,
                from,
                directory,
                format: args.format,
            },
        )
    }

    /// Starts the range query that the settings ask for: scoped to the
    /// directory and starting at the key, where given.
    pub fn run(&self, ctx: &MetadataCtx, page_size: usize) -> (q: RangeQuery)
        requires
            page_size > 0,
        ensures
            q.wf(),
            q@ == start_spec(opt_view(ctx.directory), opt_view(ctx.from), page_size as nat),
    {
        let mut range = RangeQueryContext::new();
        if let Some(dir) = &ctx.directory {
            range.set_directory(dir.duplicate());
        }
        if let Some(from) = &ctx.from {
            range.set_from(from.duplicate());
        }
        RangeQuery::new(range, page_size)
    }
}

} // verus!
