//! The mail-management module: its descriptor and assembly, and the
//! verified formatting of the account listing. Talking to the mail
//! provider (authorization, requests) is the embedding program's
//! collaborator work and lives behind the tools' operations; the listing
//! tool hands the records it fetched to [`format_user_line`].

use vstd::prelude::*;

verus! {

use crate::cli::{Module, ModuleState, Tool};
use crate::models::email::EmailAddress;
use vstd::string::*;

pub struct EmailModule;

impl EmailModule {
    /// Assembles the mail-management module over its tools.
    pub fn init_module<Op>(tools: Vec<Tool<Op>>) -> (m: Module<Op>)
        ensures
            m.spec_name() == "Email Management Module"@,
            m.spec_desc() == "Manage Email (ZOHO) users and groups"@,
            m.spec_tools() == tools@,
            m.spec_state() == ModuleState::ToolSelect,
            m.wf(),
    {
        Module::with_meta(
            "Email Management Module".to_owned(),
            "Manage Email (ZOHO) users and groups".to_owned(),
            tools,
        )
    }
}

/// How one address is shown: its mail id, with `" (Alias)"` after an
/// alias.
pub open spec fn addr_entry(a: EmailAddress) -> Seq<char>
    recommends
        a.mail_id is Some,
        a.is_alias is Some,
{
    if a.is_alias->0 {
        a.mail_id->0@ + " (Alias)"@
    } else {
        a.mail_id->0@
    }
}

/// The addresses of one account, joined with `", "`.
pub open spec fn joined_addrs(addrs: Seq<EmailAddress>) -> Seq<char>
    decreases addrs.len(),
{
    if addrs.len() == 0 {
        Seq::empty()
    } else if addrs.len() == 1 {
        addr_entry(addrs[0])
    } else {
        joined_addrs(addrs.drop_last()) + ", "@ + addr_entry(addrs.last())
    }
}

/// The listing line for one account.
pub open spec fn user_line_spec(name: Seq<char>, addrs: Seq<EmailAddress>) -> Seq<char> {
    "User: "@ + name + ", Email(s): "@ + joined_addrs(addrs)
}

/// Formats the listing line for one account: its display name, then its
/// addresses joined with `", "`, aliases marked. Every address must carry
/// its mail id and alias flag.
pub fn format_user_line(display_name: &str, addrs: &Vec<EmailAddress>) -> (r: String)
    requires
        forall|i: int|
            0 <= i < addrs@.len() ==> (#[trigger] addrs@[i]).mail_id is Some && addrs@[i].is_alias
                is Some,
    ensures
        r@ == user_line_spec(display_name@, addrs@),
{
    let mut s = "User: ".to_owned();
    s.append(display_name);
    s.append(", Email(s): ");
    let ghost prefix = "User: "@ + display_name@ + ", Email(s): "@;
    proof {
        assert(s@ =~= prefix);
    }
    let n = addrs.len();
    let mut i: usize = 0;
    while i < n
        invariant
            i <= n,
            n == addrs@.len(),
            forall|k: int|
                0 <= k < addrs@.len() ==> (#[trigger] addrs@[k]).mail_id is Some
                    && addrs@[k].is_alias is Some,
            prefix == "User: "@ + display_name@ + ", Email(s): "@,
            s@ == prefix + joined_addrs(addrs@.take(i as int)),
        decreases n - i,
    {
        if i > 0 {
            s.append(", ");
        }
        let a = &addrs[i];
        if let Some(m) = &a.mail_id {
            s.append(m.as_str());
        } else {
            unreached::<()>();
        }
        if let Some(al) = &a.is_alias {
            if *al {
                s.append(" (Alias)");
            }
        } else {
            unreached::<()>();
        }
        proof {
            let t = addrs@.take(i + 1);
            assert(t.drop_last() =~= addrs@.take(i as int));
            assert(t.last() == addrs@[i as int]);
            if i == 0 {
                assert(joined_addrs(t) == addr_entry(addrs@[0]));
            } else {
                assert(joined_addrs(t) == joined_addrs(addrs@.take(i as int)) + ", "@
                    + addr_entry(addrs@[i as int]));
            }
            assert(s@ =~= prefix + joined_addrs(t));
        }
        i = i + 1;
    }
    proof {
        assert(addrs@.take(n as int) =~= addrs@);
        assert(s@ =~= user_line_spec(display_name@, addrs@));
    }
    s
}

} // verus!
