//! The tool surface: the two externally callable operations and the
//! shaping of their outcomes into the protocol's success and error
//! payloads.

use vstd::prelude::*;
use vstd::string::StringExecFns;

use crate::error::{spec_message, DbError};
use crate::models::Application;
use crate::schemas::CreateAppInput;
use crate::service::ApplicationService;
use crate::store::{apps_sorted, create_post, list_post, migrated, store_wf, StoreModel};
use crate::text::{dec_digits, dec_i64, i64_to_string, json_escaped, push_json_escaped,
    usize_to_string};

verus! {

/// The protocol's uniform classification for failed tool calls.
pub const INTERNAL_ERROR_CODE: i32 = -32603;

/// A protocol-level error: the uniform code and a descriptive message.
#[derive(Debug)]
pub struct ToolError {
    pub code: i32,
    pub message: String,
}

/// One record as the payloads carry it.
pub open spec fn app_json(a: Application) -> Seq<char> {
    "{\"id\":\""@ + json_escaped(a.id@) + "\",\"name\":\""@ + json_escaped(a.name@)
        + "\",\"created_at\":"@ + dec_i64(a.created_at as int) + "}"@
}

/// The success payload of the create-application tool.
pub open spec fn create_success_json(a: Application) -> Seq<char> {
    "{\"success\":true,\"application\":"@ + app_json(a)
        + ",\"message\":\"Successfully created application '"@ + json_escaped(a.name@)
        + "' with ID "@ + json_escaped(a.id@) + "\"}"@
}

/// A sequence of records as the list payload carries them, separated by
/// commas.
pub open spec fn apps_json(apps: Seq<Application>) -> Seq<char>
    decreases apps.len(),
{
    if apps.len() == 0 {
        Seq::empty()
    } else if apps.len() == 1 {
        app_json(apps[0])
    } else {
        app_json(apps[0]) + ","@ + apps_json(apps.drop_first())
    }
}

/// The success payload of the list-applications tool.
pub open spec fn list_success_json(apps: Seq<Application>) -> Seq<char> {
    "{\"success\":true,\"applications\":["@ + apps_json(apps) + "],\"count\":"@ + dec_digits(
        apps.len(),
    ) + "}"@
}

/// Renders one record for a payload.
pub fn render_app_json(a: &Application) -> (r: String)
    ensures
        r@ == app_json(*a),
{
    let mut s = String::from_str("{\"id\":\"");
    push_json_escaped(&mut s, a.id.as_str());
    s.append("\",\"name\":\"");
    push_json_escaped(&mut s, a.name.as_str());
    s.append("\",\"created_at\":");
    let ts = i64_to_string(a.created_at);
    s.append(ts.as_str());
    s.append("}");
    proof {
        assert(s@ =~= app_json(*a));
    }
    s
}

/// Renders the success payload of the create-application tool.
pub fn render_create_success(a: &Application) -> (r: String)
    ensures
        r@ == create_success_json(*a),
{
    let mut s = String::from_str("{\"success\":true,\"application\":");
    let aj = render_app_json(a);
    s.append(aj.as_str());
    s.append(",\"message\":\"Successfully created application '");
    push_json_escaped(&mut s, a.name.as_str());
    s.append("' with ID ");
    push_json_escaped(&mut s, a.id.as_str());
    s.append("\"}");
    proof {
        assert(s@ =~= create_success_json(*a));
    }
    s
}

/// One more record extends the comma-separated rendering at the end.
proof fn lemma_apps_json_push(apps: Seq<Application>, a: Application)
    ensures
        apps_json(apps.push(a)) == if apps.len() == 0 {
            app_json(a)
        } else {
            apps_json(apps) + ","@ + app_json(a)
        },
    decreases apps.len(),
{
    let post = apps.push(a);
    if apps.len() == 0 {
        assert(post.len() == 1);
        assert(post[0] == a);
    } else {
        assert(post[0] == apps[0]);
        assert(post.drop_first() =~= apps.drop_first().push(a));
        lemma_apps_json_push(apps.drop_first(), a);
        if apps.len() == 1 {
            assert(apps.drop_first().len() == 0);
            assert(apps_json(post) == app_json(apps[0]) + ","@ + app_json(a));
            assert(apps_json(apps) == app_json(apps[0]));
        } else {
            assert(apps_json(post) == app_json(apps[0]) + ","@ + (apps_json(apps.drop_first())
                + ","@ + app_json(a)));
            assert(apps_json(apps) == app_json(apps[0]) + ","@ + apps_json(apps.drop_first()));
            assert(apps_json(post) =~= apps_json(apps) + ","@ + app_json(a));
        }
    }
}

/// Renders the success payload of the list-applications tool for the
/// given records, in their given order, with their count.
pub fn render_list_success(apps: &Vec<Application>) -> (r: String)
    ensures
        r@ == list_success_json(apps@),
{
    let n = apps.len();
    let mut s = String::from_str("{\"success\":true,\"applications\":[");
    proof {
        assert(apps@.take(0) =~= Seq::<Application>::empty());
        assert(s@ =~= "{\"success\":true,\"applications\":["@ + apps_json(apps@.take(0)));
    }
    let mut i: usize = 0;
    while i < n
        invariant
            n == apps@.len(),
            i <= n,
            s@ == "{\"success\":true,\"applications\":["@ + apps_json(apps@.take(i as int)),
        decreases n - i,
    {
        if i > 0 {
            s.append(",");
        }
        let aj = render_app_json(&apps[i]);
        s.append(aj.as_str());
        proof {
            lemma_apps_json_push(apps@.take(i as int), apps@[i as int]);
            assert(apps@.take(i + 1) =~= apps@.take(i as int).push(apps@[i as int]));
            assert(s@ =~= "{\"success\":true,\"applications\":["@ + apps_json(apps@.take(i + 1)));
        }
        i = i + 1;
    }
    proof {
        assert(apps@.take(n as int) =~= apps@);
    }
    s.append("],\"count\":");
    let c = usize_to_string(apps.len());
    s.append(c.as_str());
    s.append("}");
    proof {
        assert(s@ =~= list_success_json(apps@));
    }
    s
}

/// The protocol error for a failed create: the uniform code, the message
/// naming the underlying cause.
pub fn create_failure(e: &DbError) -> (r: ToolError)
    ensures
        r.code == INTERNAL_ERROR_CODE,
        r.message@ == "Failed to create application: "@ + spec_message(*e),
{
    let mut m = String::from_str("Failed to create application: ");
    let em = e.message();
    m.append(em.as_str());
    ToolError { code: INTERNAL_ERROR_CODE, message: m }
}

/// The protocol error for a failed listing: the uniform code, the message
/// naming the underlying cause.
pub fn list_failure(e: &DbError) -> (r: ToolError)
    ensures
        r.code == INTERNAL_ERROR_CODE,
        r.message@ == "Failed to list applications: "@ + spec_message(*e),
{
    let mut m = String::from_str("Failed to list applications: ");
    let em = e.message();
    m.append(em.as_str());
    ToolError { code: INTERNAL_ERROR_CODE, message: m }
}

/// The protocol server: the application service together with the two
/// tool operations it exposes.
pub struct McpServer {
    service: ApplicationService,
}

impl View for McpServer {
    type V = StoreModel;

    closed spec fn view(&self) -> StoreModel {
        self.service@
    }
}

impl McpServer {
    /// A server over the given application service.
    pub fn new(service: ApplicationService) -> (r: McpServer)
        ensures
            r@ == service@,
    {
        McpServer { service }
    }

    /// The create-application tool: on success, the payload carrying the
    /// persisted record and a confirmation message; on any failure, the
    /// uniform protocol error whose message names the cause.
    pub fn otter_create_app(&mut self, input: CreateAppInput) -> (r: Result<String, ToolError>)
        requires
            store_wf(old(self)@),
            migrated(old(self)@),
        ensures
            store_wf(final(self)@),
            migrated(final(self)@),
            match r {
                Ok(s) => {
                    &&& final(self)@.apps.len() == old(self)@.apps.len() + 1
                    &&& create_post(
                        old(self)@,
                        final(self)@,
                        input.name@,
                        Ok(final(self)@.apps.last()),
                    )
                    &&& s@ == create_success_json(final(self)@.apps.last())
                },
                Err(e) => {
                    &&& final(self)@ == old(self)@
                    &&& e.code == INTERNAL_ERROR_CODE
                    &&& exists|de: DbError|
                        create_post(old(self)@, final(self)@, input.name@, Err(de))
                            && e.message@ == "Failed to create application: "@ + spec_message(de)
                },
            },
    {
        match self.service.create_app(input.name) {
            Ok(app) => {
                proof {
                    assert(self@.apps.last() == app);
                }
                Ok(render_create_success(&app))
            },
            Err(e) => {
                let te = create_failure(&e);
                proof {
                    assert(create_post(old(self)@, self@, input.name@, Err(e)));
                }
                Err(te)
            },
        }
    }

    /// The list-applications tool: the payload carrying every record in
    /// the listing order and their count; an empty store yields the empty
    /// sequence and count zero, not an error.
    pub fn otter_list_apps(&self) -> (r: Result<String, ToolError>)
        requires
            store_wf(self@),
            migrated(self@),
        ensures
            match r {
                Ok(s) => exists|out: Seq<Application>|
                    {
                        &&& out.to_multiset() == self@.apps.to_multiset()
                        &&& out.len() == self@.apps.len()
                        &&& apps_sorted(out)
                        &&& s@ == list_success_json(out)
                    },
                Err(_) => false,
            },
    {
        match self.service.list_apps() {
            Ok(apps) => {
                let s = render_list_success(&apps);
                proof {
                    let out = apps@;
                    assert(out.to_multiset() == self@.apps.to_multiset() && out.len()
                        == self@.apps.len() && apps_sorted(out) && s@ == list_success_json(out));
                }
                Ok(s)
            },
            Err(e) => Err(list_failure(&e)),
        }
    }
}

} // verus!
