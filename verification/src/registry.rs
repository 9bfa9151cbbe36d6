//! The registry: wires caller-supplied metadata and a no-argument
//! operation into a tool, and assembles modules from tools, without
//! per-tool boilerplate.
//!
//! A tool is declared by `id`, `name` and `desc` keys; `id` is required
//! and the declaration is rejected at build time without it. Omitted
//! display metadata defaults deterministically to text derived from the
//! operation's own identifier, and those defaults are part of the
//! observable contract: other components display them.

use vstd::prelude::*;

verus! {

use vstd::string::*;
use crate::cli::{Module, ModuleState, Tool};
use crate::text::{pairs_view, str_eq};

/// Why a tool declaration was rejected at build time.
#[derive(Clone, Copy, PartialEq, Eq, Structural, Debug)]
pub enum ArgsError {
    /// A key other than `id`, `name` or `desc` appeared.
    UnknownAttribute,
    /// The required `id` key never appeared.
    MissingId,
}

/// The declaration of one tool: a required stable identifier and optional
/// display name and description.
pub struct ToolArgs {
    pub id: String,
    pub name: Option<String>,
    pub desc: Option<String>,
}

pub open spec fn opt_str_view(o: Option<String>) -> Option<Seq<char>> {
    match o {
        Some(s) => Some(s@),
        None => None,
    }
}

/// Folds a key/value list left to right into the declared `id`, `name`
/// and `desc`: of repeated keys the last wins, and the first unknown key
/// rejects the whole declaration.
pub open spec fn fold_args(pairs: Seq<(Seq<char>, Seq<char>)>) -> Result<
    (Option<Seq<char>>, Option<Seq<char>>, Option<Seq<char>>),
    ArgsError,
>
    decreases pairs.len(),
{
    if pairs.len() == 0 {
        Ok((None, None, None))
    } else {
        match fold_args(pairs.drop_last()) {
            Err(e) => Err(e),
            Ok(acc) => {
                let k = pairs.last().0;
                let v = pairs.last().1;
                if k == "id"@ {
                    Ok((Some(v), acc.1, acc.2))
                } else if k == "name"@ {
                    Ok((acc.0, Some(v), acc.2))
                } else if k == "desc"@ {
                    Ok((acc.0, acc.1, Some(v)))
                } else {
                    Err(ArgsError::UnknownAttribute)
                }
            },
        }
    }
}

/// What parsing a declaration returns: the `id` with the optional `name`
/// and `desc`, or the error, `UnknownAttribute` before `MissingId`.
pub open spec fn parse_spec(pairs: Seq<(Seq<char>, Seq<char>)>) -> Result<
    (Seq<char>, Option<Seq<char>>, Option<Seq<char>>),
    ArgsError,
> {
    match fold_args(pairs) {
        Err(e) => Err(e),
        Ok(acc) => match acc.0 {
            Some(id) => Ok((id, acc.1, acc.2)),
            None => Err(ArgsError::MissingId),
        },
    }
}

proof fn lemma_fold_args_err(pairs: Seq<(Seq<char>, Seq<char>)>, i: int)
    requires
        0 <= i < pairs.len(),
        fold_args(pairs.take(i + 1)) is Err,
    ensures
        fold_args(pairs) == fold_args(pairs.take(i + 1)),
    decreases pairs.len() - i,
{
    if i + 1 == pairs.len() {
        assert(pairs.take(i + 1) =~= pairs);
    } else {
        assert(pairs.take(i + 2).drop_last() =~= pairs.take(i + 1));
        lemma_fold_args_err(pairs, i + 1);
    }
}

impl ToolArgs {
    /// Parses the key/value declaration of one tool. `id` is required;
    /// `name` and `desc` are optional; of repeated keys the last wins; any
    /// other key is rejected.
    pub fn parse(pairs: &Vec<(String, String)>) -> (r: Result<ToolArgs, ArgsError>)
        ensures
            match r {
                Ok(args) => parse_spec(pairs_view(pairs@)) == Ok::<
                    (Seq<char>, Option<Seq<char>>, Option<Seq<char>>),
                    ArgsError,
                >((args.id@, opt_str_view(args.name), opt_str_view(args.desc))),
                Err(e) => parse_spec(pairs_view(pairs@)) == Err::<
                    (Seq<char>, Option<Seq<char>>, Option<Seq<char>>),
                    ArgsError,
                >(e),
            },
    {
        let ghost v = pairs_view(pairs@);
        let mut id: Option<String> = None;
        let mut name: Option<String> = None;
        let mut desc: Option<String> = None;
        let n = pairs.len();
        let mut i: usize = 0;
        proof {
            assert(v.take(0) =~= Seq::<(Seq<char>, Seq<char>)>::empty());
        }
        while i < n
            invariant
                i <= n,
                n == pairs@.len(),
                v == pairs_view(pairs@),
                v.len() == n,
                fold_args(v.take(i as int)) == Ok::<
                    (Option<Seq<char>>, Option<Seq<char>>, Option<Seq<char>>),
                    ArgsError,
                >((opt_str_view(id), opt_str_view(name), opt_str_view(desc))),
            decreases n - i,
        {
            let key = &pairs[i].0;
            let value = &pairs[i].1;
            proof {
                assert(v.take(i + 1).drop_last() =~= v.take(i as int));
                assert(v.take(i + 1).last() == v[i as int]);
                assert(v[i as int] == (pairs@[i as int].0@, pairs@[i as int].1@));
            }
            if str_eq(key.as_str(), "id") {
                id = Some(value.clone());
            } else if str_eq(key.as_str(), "name") {
                name = Some(value.clone());
            } else if str_eq(key.as_str(), "desc") {
                desc = Some(value.clone());
            } else {
                proof {
                    assert(fold_args(v.take(i + 1)) is Err);
                    lemma_fold_args_err(v, i as int);
                }
                return Err(ArgsError::UnknownAttribute);
            }
            i = i + 1;
        }
        proof {
            assert(v.take(n as int) =~= v);
        }
        match id {
            Some(id_value) => Ok(ToolArgs { id: id_value, name, desc }),
            None => Err(ArgsError::MissingId),
        }
    }
}

/// The display name of a tool whose operation's identifier is `ident`:
/// the given name, or `"<ident> Tool"`.
pub open spec fn tool_name_spec(ident: Seq<char>, name: Option<Seq<char>>) -> Seq<char> {
    match name {
        Some(n) => n,
        None => ident + " Tool"@,
    }
}

/// The description of such a tool: the given text, or `"Tool to <ident>"`.
pub open spec fn tool_desc_spec(ident: Seq<char>, desc: Option<Seq<char>>) -> Seq<char> {
    match desc {
        Some(d) => d,
        None => "Tool to "@ + ident,
    }
}

/// The display name of a module declared on `ident`: the given name, or
/// `"<ident> Module"`.
pub open spec fn module_name_spec(ident: Seq<char>, name: Option<Seq<char>>) -> Seq<char> {
    match name {
        Some(n) => n,
        None => ident + " Module"@,
    }
}

/// The description of such a module: the given text, or
/// `"Description for <ident>"`.
pub open spec fn module_desc_spec(ident: Seq<char>, desc: Option<Seq<char>>) -> Seq<char> {
    match desc {
        Some(d) => d,
        None => "Description for "@ + ident,
    }
}

/// Round-trip of tool metadata: an explicit name or description is kept
/// exactly as supplied, and an omitted one is the documented default
/// derived from the operation's identifier.
pub proof fn lemma_tool_metadata_roundtrip(ident: Seq<char>, name: Seq<char>, desc: Seq<char>)
    ensures
        tool_name_spec(ident, Some(name)) == name,
        tool_desc_spec(ident, Some(desc)) == desc,
        tool_name_spec(ident, None) == ident + " Tool"@,
        tool_desc_spec(ident, None) == "Tool to "@ + ident,
{
}

/// Produces a tool from its operation's identifier, the optional display
/// metadata and the operation value itself; omitted metadata defaults to
/// text derived from the identifier.
pub fn make_tool<Op>(op_ident: &str, name: Option<String>, desc: Option<String>, op: Op) -> (t:
    Tool<Op>)
    ensures
        t.spec_name() == tool_name_spec(op_ident@, opt_str_view(name)),
        t.spec_desc() == tool_desc_spec(op_ident@, opt_str_view(desc)),
        t.spec_op() == op,
{
    let tool_name = match name {
        Some(n) => n,
        None => {
            let mut s = op_ident.to_owned();
            s.append(" Tool");
            s
        },
    };
    let tool_desc = match desc {
        Some(d) => d,
        None => {
            let mut s = "Tool to ".to_owned();
            s.append(op_ident);
            s
        },
    };
    Tool::with_meta(tool_name, tool_desc, op)
}

/// Assembles a module over `ident` from its already-constructed tools;
/// omitted metadata defaults to text derived from the identifier.
pub fn make_module<Op>(
    ident: &str,
    name: Option<String>,
    desc: Option<String>,
    tools: Vec<Tool<Op>>,
) -> (m: Module<Op>)
    ensures
        m.spec_name() == module_name_spec(ident@, opt_str_view(name)),
        m.spec_desc() == module_desc_spec(ident@, opt_str_view(desc)),
        m.spec_tools() == tools@,
        m.spec_state() == ModuleState::ToolSelect,
        m.wf(),
{
    let module_name = match name {
        Some(n) => n,
        None => {
            let mut s = ident.to_owned();
            s.append(" Module");
            s
        },
    };
    let module_desc = match desc {
        Some(d) => d,
        None => {
            let mut s = "Description for ".to_owned();
            s.append(ident);
            s
        },
    };
    Module::with_meta(module_name, module_desc, tools)
}

} // verus!
