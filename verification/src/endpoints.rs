//! The requests of the Team API, one per documented operation.

use vstd::prelude::*;
use crate::client::{is_request, query_views, ApiClient, HttpClient, HttpRequest};
use crate::external::{url_encode, url_encoded};
use crate::text::push_str_chars;

verus! {

/// The identifiers of the documented API operations of this version. The
/// project member requests (`Projects::update_members`, `add_member` and
/// `remove_member`) are not among them; the client keeps them beside the team
/// member requests that took their place.
pub const OPERATION_IDS: [&'static str; 50] = [
    "v1.sendMail",
    "v1.sendBatchMail",
    "v1.ping",
    "v1.blockedFileTypes",
    "domain.index",
    "domain.store",
    "domain.show",
    "domain.destroy",
    "domain.verifyDnsRecords",
    "domain.verifySpecificDnsRecord",
    "domain.updateProjects",
    "message.index",
    "message.show",
    "message.events",
    "message.source",
    "message.html",
    "message.text",
    "processInboundMessage",
    "project.index",
    "project.store",
    "project.show",
    "project.update",
    "project.destroy",
    "project.rotateToken",
    "route.index",
    "route.store",
    "route.show",
    "route.update",
    "route.destroy",
    "route.verifyInboundDomain",
    "stats.index",
    "suppression.index",
    "suppression.store",
    "suppression.destroy",
    "team.show",
    "team.update",
    "team.usage",
    "team.members",
    "team.members.show",
    "team.members.assignment.update",
    "team.roles",
    "webhook.index",
    "webhook.store",
    "webhook.show",
    "webhook.update",
    "webhook.destroy",
    "webhook.test",
    "webhook.regenerateSecret",
    "webhook.deliveries",
    "webhook.showDelivery",
];

/// The body of a `POST` that carries no data: an empty JSON object.
pub const EMPTY_BODY: &'static str = "{}";

/// `value` percent-encoded for use as one segment of a path.
pub fn segment(value: &str) -> (r: String)
    ensures
        r@ == url_encoded(value@),
{
    url_encode(value)
}

/// The path `prefix`, `id` as a segment, then `suffix`.
pub fn resource_path(prefix: &str, id: &str, suffix: &str) -> (r: String)
    ensures
        r@ == prefix@ + url_encoded(id@) + suffix@,
{
    let mut path = prefix.to_owned();
    let encoded = segment(id);
    push_str_chars(&mut path, encoded.as_str());
    push_str_chars(&mut path, suffix);
    path
}

/// The path `prefix`, `first` as a segment, `middle`, `second` as a segment,
/// then `suffix`.
pub fn resource_path2(prefix: &str, first: &str, middle: &str, second: &str, suffix: &str) -> (r: String)
    ensures
        r@ == prefix@ + url_encoded(first@) + middle@ + url_encoded(second@) + suffix@,
{
    let mut path = resource_path(prefix, first, middle);
    let encoded = segment(second);
    push_str_chars(&mut path, encoded.as_str());
    push_str_chars(&mut path, suffix);
    path
}

/// The requests of the Team API on sending domains.
pub struct Domains<'a, T> {
    client: &'a HttpClient<T>,
}

impl<'a, T> Domains<'a, T> {
    /// The client the requests are made for.
    pub closed spec fn client_spec(&self) -> HttpClient<T> {
        *self.client
    }

    /// The requests on sending domains for `client`.
    pub fn new(client: &'a HttpClient<T>) -> (r: Domains<'a, T>)
        ensures
            r.client_spec() == *client,
    {
        Domains { client }
    }

    /// The domains of the team.
    pub fn list(&self, query: &[(&str, &str)]) -> (r: HttpRequest)
        ensures
            is_request(
                r,
                self.client_spec(),
                "GET"@,
                "/domains"@,
                query_views(query@),
                None,
                seq![],
            ),
    {
        self.client.build_request("GET", "/domains", query, None, None)
    }

    /// Adds a domain.
    pub fn create(&self, payload: String) -> (r: HttpRequest)
        ensures
            is_request(
                r,
                self.client_spec(),
                "POST"@,
                "/domains"@,
                seq![],
                Some(payload@),
                seq![],
            ),
    {
        self.client.build_request("POST", "/domains", &[], Some(payload), None)
    }

    /// One domain.
    pub fn retrieve(&self, domain_id: &str) -> (r: HttpRequest)
        ensures
            is_request(
                r,
                self.client_spec(),
                "GET"@,
                "/domains/"@ + url_encoded(domain_id@) + ""@,
                seq![],
                None,
                seq![],
            ),
    {
        let path = resource_path("/domains/", domain_id, "");
        self.client.build_request("GET", path.as_str(), &[], None, None)
    }

    /// Removes a domain.
    pub fn delete(&self, domain_id: &str) -> (r: HttpRequest)
        ensures
            is_request(
                r,
                self.client_spec(),
                "DELETE"@,
                "/domains/"@ + url_encoded(domain_id@) + ""@,
                seq![],
                None,
                seq![],
            ),
    {
        let path = resource_path("/domains/", domain_id, "");
        self.client.build_request("DELETE", path.as_str(), &[], None, None)
    }

    /// Verifies all DNS records of a domain.
    pub fn verify_dns_records(&self, domain_id: &str) -> (r: HttpRequest)
        ensures
            is_request(
                r,
                self.client_spec(),
                "POST"@,
                "/domains/"@ + url_encoded(domain_id@) + "/dns-records/verify"@,
                seq![],
                Some(EMPTY_BODY@),
                seq![],
            ),
    {
        let path = resource_path("/domains/", domain_id, "/dns-records/verify");
        self.client.build_request("POST", path.as_str(), &[], Some(EMPTY_BODY.to_owned()), None)
    }

    /// Verifies one DNS record of a domain.
    pub fn verify_dns_record(&self, domain_id: &str, record_id: &str) -> (r: HttpRequest)
        ensures
            is_request(
                r,
                self.client_spec(),
                "POST"@,
                "/domains/"@ + url_encoded(domain_id@) + "/dns-records/"@ + url_encoded(record_id@) + "/verify"@,
                seq![],
                Some(EMPTY_BODY@),
                seq![],
            ),
    {
        let path = resource_path2("/domains/", domain_id, "/dns-records/", record_id, "/verify");
        self.client.build_request("POST", path.as_str(), &[], Some(EMPTY_BODY.to_owned()), None)
    }

    /// Sets the projects of a domain.
    pub fn update_projects(&self, domain_id: &str, payload: String) -> (r: HttpRequest)
        ensures
            is_request(
                r,
                self.client_spec(),
                "PUT"@,
                "/domains/"@ + url_encoded(domain_id@) + "/projects"@,
                seq![],
                Some(payload@),
                seq![],
            ),
    {
        let path = resource_path("/domains/", domain_id, "/projects");
        self.client.build_request("PUT", path.as_str(), &[], Some(payload), None)
    }

}

/// The requests of the Team API on sent messages.
pub struct Messages<'a, T> {
    client: &'a HttpClient<T>,
}

impl<'a, T> Messages<'a, T> {
    /// The client the requests are made for.
    pub closed spec fn client_spec(&self) -> HttpClient<T> {
        *self.client
    }

    /// The requests on sent messages for `client`.
    pub fn new(client: &'a HttpClient<T>) -> (r: Messages<'a, T>)
        ensures
            r.client_spec() == *client,
    {
        Messages { client }
    }

    /// The messages of the team.
    pub fn list(&self, query: &[(&str, &str)]) -> (r: HttpRequest)
        ensures
            is_request(
                r,
                self.client_spec(),
                "GET"@,
                "/messages"@,
                query_views(query@),
                None,
                seq![],
            ),
    {
        self.client.build_request("GET", "/messages", query, None, None)
    }

    /// One message.
    pub fn retrieve(&self, message_id: &str) -> (r: HttpRequest)
        ensures
            is_request(
                r,
                self.client_spec(),
                "GET"@,
                "/messages/"@ + url_encoded(message_id@) + ""@,
                seq![],
                None,
                seq![],
            ),
    {
        let path = resource_path("/messages/", message_id, "");
        self.client.build_request("GET", path.as_str(), &[], None, None)
    }

    /// The events of a message.
    pub fn events(&self, message_id: &str, query: &[(&str, &str)]) -> (r: HttpRequest)
        ensures
            is_request(
                r,
                self.client_spec(),
                "GET"@,
                "/messages/"@ + url_encoded(message_id@) + "/events"@,
                query_views(query@),
                None,
                seq![],
            ),
    {
        let path = resource_path("/messages/", message_id, "/events");
        self.client.build_request("GET", path.as_str(), query, None, None)
    }

    /// The raw source of a message.
    pub fn source(&self, message_id: &str) -> (r: HttpRequest)
        ensures
            is_request(
                r,
                self.client_spec(),
                "GET"@,
                "/messages/"@ + url_encoded(message_id@) + "/source"@,
                seq![],
                None,
                seq![],
            ),
    {
        let path = resource_path("/messages/", message_id, "/source");
        self.client.build_request("GET", path.as_str(), &[], None, None)
    }

    /// The HTML body of a message.
    pub fn html(&self, message_id: &str) -> (r: HttpRequest)
        ensures
            is_request(
                r,
                self.client_spec(),
                "GET"@,
                "/messages/"@ + url_encoded(message_id@) + "/html"@,
                seq![],
                None,
                seq![],
            ),
    {
        let path = resource_path("/messages/", message_id, "/html");
        self.client.build_request("GET", path.as_str(), &[], None, None)
    }

    /// The text body of a message.
    pub fn text(&self, message_id: &str) -> (r: HttpRequest)
        ensures
            is_request(
                r,
                self.client_spec(),
                "GET"@,
                "/messages/"@ + url_encoded(message_id@) + "/text"@,
                seq![],
                None,
                seq![],
            ),
    {
        let path = resource_path("/messages/", message_id, "/text");
        self.client.build_request("GET", path.as_str(), &[], None, None)
    }

    /// Releases a quarantined message for processing.
    pub fn process(&self, message_id: &str) -> (r: HttpRequest)
        ensures
            is_request(
                r,
                self.client_spec(),
                "POST"@,
                "/messages/"@ + url_encoded(message_id@) + "/process"@,
                seq![],
                Some(EMPTY_BODY@),
                seq![],
            ),
    {
        let path = resource_path("/messages/", message_id, "/process");
        self.client.build_request("POST", path.as_str(), &[], Some(EMPTY_BODY.to_owned()), None)
    }

}

/// The requests of the Team API on projects.
pub struct Projects<'a, T> {
    client: &'a HttpClient<T>,
}

impl<'a, T> Projects<'a, T> {
    /// The client the requests are made for.
    pub closed spec fn client_spec(&self) -> HttpClient<T> {
        *self.client
    }

    /// The requests on projects for `client`.
    pub fn new(client: &'a HttpClient<T>) -> (r: Projects<'a, T>)
        ensures
            r.client_spec() == *client,
    {
        Projects { client }
    }

    /// The projects of the team.
    pub fn list(&self, query: &[(&str, &str)]) -> (r: HttpRequest)
        ensures
            is_request(
                r,
                self.client_spec(),
                "GET"@,
                "/projects"@,
                query_views(query@),
                None,
                seq![],
            ),
    {
        self.client.build_request("GET", "/projects", query, None, None)
    }

    /// Adds a project.
    pub fn create(&self, payload: String) -> (r: HttpRequest)
        ensures
            is_request(
                r,
                self.client_spec(),
                "POST"@,
                "/projects"@,
                seq![],
                Some(payload@),
                seq![],
            ),
    {
        self.client.build_request("POST", "/projects", &[], Some(payload), None)
    }

    /// One project.
    pub fn retrieve(&self, project_id: &str) -> (r: HttpRequest)
        ensures
            is_request(
                r,
                self.client_spec(),
                "GET"@,
                "/projects/"@ + url_encoded(project_id@) + ""@,
                seq![],
                None,
                seq![],
            ),
    {
        let path = resource_path("/projects/", project_id, "");
        self.client.build_request("GET", path.as_str(), &[], None, None)
    }

    /// Changes a project.
    pub fn update(&self, project_id: &str, payload: String) -> (r: HttpRequest)
        ensures
            is_request(
                r,
                self.client_spec(),
                "PUT"@,
                "/projects/"@ + url_encoded(project_id@) + ""@,
                seq![],
                Some(payload@),
                seq![],
            ),
    {
        let path = resource_path("/projects/", project_id, "");
        self.client.build_request("PUT", path.as_str(), &[], Some(payload), None)
    }

    /// Removes a project.
    pub fn delete(&self, project_id: &str) -> (r: HttpRequest)
        ensures
            is_request(
                r,
                self.client_spec(),
                "DELETE"@,
                "/projects/"@ + url_encoded(project_id@) + ""@,
                seq![],
                None,
                seq![],
            ),
    {
        let path = resource_path("/projects/", project_id, "");
        self.client.build_request("DELETE", path.as_str(), &[], None, None)
    }

    /// Replaces the API token of a project.
    pub fn rotate_token(&self, project_id: &str) -> (r: HttpRequest)
        ensures
            is_request(
                r,
                self.client_spec(),
                "POST"@,
                "/projects/"@ + url_encoded(project_id@) + "/rotate-token"@,
                seq![],
                Some(EMPTY_BODY@),
                seq![],
            ),
    {
        let path = resource_path("/projects/", project_id, "/rotate-token");
        self.client.build_request("POST", path.as_str(), &[], Some(EMPTY_BODY.to_owned()), None)
    }

    /// Sets the members of a project.
    pub fn update_members(&self, project_id: &str, payload: String) -> (r: HttpRequest)
        ensures
            is_request(
                r,
                self.client_spec(),
                "PUT"@,
                "/projects/"@ + url_encoded(project_id@) + "/members"@,
                seq![],
                Some(payload@),
                seq![],
            ),
    {
        let path = resource_path("/projects/", project_id, "/members");
        self.client.build_request("PUT", path.as_str(), &[], Some(payload), None)
    }

    /// Adds a team member to a project.
    pub fn add_member(&self, project_id: &str, team_member_id: &str) -> (r: HttpRequest)
        ensures
            is_request(
                r,
                self.client_spec(),
                "POST"@,
                "/projects/"@ + url_encoded(project_id@) + "/members/"@ + url_encoded(team_member_id@) + ""@,
                seq![],
                Some(EMPTY_BODY@),
                seq![],
            ),
    {
        let path = resource_path2("/projects/", project_id, "/members/", team_member_id, "");
        self.client.build_request("POST", path.as_str(), &[], Some(EMPTY_BODY.to_owned()), None)
    }

    /// Removes a team member from a project.
    pub fn remove_member(&self, project_id: &str, team_member_id: &str) -> (r: HttpRequest)
        ensures
            is_request(
                r,
                self.client_spec(),
                "DELETE"@,
                "/projects/"@ + url_encoded(project_id@) + "/members/"@ + url_encoded(team_member_id@) + ""@,
                seq![],
                None,
                seq![],
            ),
    {
        let path = resource_path2("/projects/", project_id, "/members/", team_member_id, "");
        self.client.build_request("DELETE", path.as_str(), &[], None, None)
    }

    /// The routes of a project.
    pub fn routes(&self, project_id: &str, query: &[(&str, &str)]) -> (r: HttpRequest)
        ensures
            is_request(
                r,
                self.client_spec(),
                "GET"@,
                "/projects/"@ + url_encoded(project_id@) + "/routes"@,
                query_views(query@),
                None,
                seq![],
            ),
    {
        let path = resource_path("/projects/", project_id, "/routes");
        self.client.build_request("GET", path.as_str(), query, None, None)
    }

    /// Adds a route to a project.
    pub fn create_route(&self, project_id: &str, payload: String) -> (r: HttpRequest)
        ensures
            is_request(
                r,
                self.client_spec(),
                "POST"@,
                "/projects/"@ + url_encoded(project_id@) + "/routes"@,
                seq![],
                Some(payload@),
                seq![],
            ),
    {
        let path = resource_path("/projects/", project_id, "/routes");
        self.client.build_request("POST", path.as_str(), &[], Some(payload), None)
    }

}

/// The requests of the Team API on routes.
pub struct Routes<'a, T> {
    client: &'a HttpClient<T>,
}

impl<'a, T> Routes<'a, T> {
    /// The client the requests are made for.
    pub closed spec fn client_spec(&self) -> HttpClient<T> {
        *self.client
    }

    /// The requests on routes for `client`.
    pub fn new(client: &'a HttpClient<T>) -> (r: Routes<'a, T>)
        ensures
            r.client_spec() == *client,
    {
        Routes { client }
    }

    /// One route.
    pub fn retrieve(&self, route_id: &str) -> (r: HttpRequest)
        ensures
            is_request(
                r,
                self.client_spec(),
                "GET"@,
                "/routes/"@ + url_encoded(route_id@) + ""@,
                seq![],
                None,
                seq![],
            ),
    {
        let path = resource_path("/routes/", route_id, "");
        self.client.build_request("GET", path.as_str(), &[], None, None)
    }

    /// Changes a route.
    pub fn update(&self, route_id: &str, payload: String) -> (r: HttpRequest)
        ensures
            is_request(
                r,
                self.client_spec(),
                "PUT"@,
                "/routes/"@ + url_encoded(route_id@) + ""@,
                seq![],
                Some(payload@),
                seq![],
            ),
    {
        let path = resource_path("/routes/", route_id, "");
        self.client.build_request("PUT", path.as_str(), &[], Some(payload), None)
    }

    /// Removes a route.
    pub fn delete(&self, route_id: &str) -> (r: HttpRequest)
        ensures
            is_request(
                r,
                self.client_spec(),
                "DELETE"@,
                "/routes/"@ + url_encoded(route_id@) + ""@,
                seq![],
                None,
                seq![],
            ),
    {
        let path = resource_path("/routes/", route_id, "");
        self.client.build_request("DELETE", path.as_str(), &[], None, None)
    }

    /// Verifies the inbound domain of a route.
    pub fn verify_inbound_domain(&self, route_id: &str) -> (r: HttpRequest)
        ensures
            is_request(
                r,
                self.client_spec(),
                "POST"@,
                "/routes/"@ + url_encoded(route_id@) + "/verify-inbound-domain"@,
                seq![],
                Some(EMPTY_BODY@),
                seq![],
            ),
    {
        let path = resource_path("/routes/", route_id, "/verify-inbound-domain");
        self.client.build_request("POST", path.as_str(), &[], Some(EMPTY_BODY.to_owned()), None)
    }

}

/// The requests of the Team API on statistics.
pub struct Stats<'a, T> {
    client: &'a HttpClient<T>,
}

impl<'a, T> Stats<'a, T> {
    /// The client the requests are made for.
    pub closed spec fn client_spec(&self) -> HttpClient<T> {
        *self.client
    }

    /// The requests on statistics for `client`.
    pub fn new(client: &'a HttpClient<T>) -> (r: Stats<'a, T>)
        ensures
            r.client_spec() == *client,
    {
        Stats { client }
    }

    /// Sending statistics.
    pub fn retrieve(&self, query: &[(&str, &str)]) -> (r: HttpRequest)
        ensures
            is_request(
                r,
                self.client_spec(),
                "GET"@,
                "/stats"@,
                query_views(query@),
                None,
                seq![],
            ),
    {
        self.client.build_request("GET", "/stats", query, None, None)
    }

}

/// The requests of the Team API on suppressed recipients.
pub struct Suppressions<'a, T> {
    client: &'a HttpClient<T>,
}

impl<'a, T> Suppressions<'a, T> {
    /// The client the requests are made for.
    pub closed spec fn client_spec(&self) -> HttpClient<T> {
        *self.client
    }

    /// The requests on suppressed recipients for `client`.
    pub fn new(client: &'a HttpClient<T>) -> (r: Suppressions<'a, T>)
        ensures
            r.client_spec() == *client,
    {
        Suppressions { client }
    }

    /// The suppressed recipients.
    pub fn list(&self, query: &[(&str, &str)]) -> (r: HttpRequest)
        ensures
            is_request(
                r,
                self.client_spec(),
                "GET"@,
                "/suppressions"@,
                query_views(query@),
                None,
                seq![],
            ),
    {
        self.client.build_request("GET", "/suppressions", query, None, None)
    }

    /// Suppresses a recipient.
    pub fn create(&self, payload: String) -> (r: HttpRequest)
        ensures
            is_request(
                r,
                self.client_spec(),
                "POST"@,
                "/suppressions"@,
                seq![],
                Some(payload@),
                seq![],
            ),
    {
        self.client.build_request("POST", "/suppressions", &[], Some(payload), None)
    }

    /// Lifts a suppression.
    pub fn delete(&self, suppression_id: &str) -> (r: HttpRequest)
        ensures
            is_request(
                r,
                self.client_spec(),
                "DELETE"@,
                "/suppressions/"@ + url_encoded(suppression_id@) + ""@,
                seq![],
                None,
                seq![],
            ),
    {
        let path = resource_path("/suppressions/", suppression_id, "");
        self.client.build_request("DELETE", path.as_str(), &[], None, None)
    }

}

/// The requests of the Team API on the team and its members.
pub struct Team<'a, T> {
    client: &'a HttpClient<T>,
}

impl<'a, T> Team<'a, T> {
    /// The client the requests are made for.
    pub closed spec fn client_spec(&self) -> HttpClient<T> {
        *self.client
    }

    /// The requests on the team for `client`.
    pub fn new(client: &'a HttpClient<T>) -> (r: Team<'a, T>)
        ensures
            r.client_spec() == *client,
    {
        Team { client }
    }

    /// The team.
    pub fn retrieve(&self) -> (r: HttpRequest)
        ensures
            is_request(
                r,
                self.client_spec(),
                "GET"@,
                "/team"@,
                seq![],
                None,
                seq![],
            ),
    {
        self.client.build_request("GET", "/team", &[], None, None)
    }

    /// Changes the team.
    pub fn update(&self, payload: String) -> (r: HttpRequest)
        ensures
            is_request(
                r,
                self.client_spec(),
                "PUT"@,
                "/team"@,
                seq![],
                Some(payload@),
                seq![],
            ),
    {
        self.client.build_request("PUT", "/team", &[], Some(payload), None)
    }

    /// The usage of the team.
    pub fn usage(&self) -> (r: HttpRequest)
        ensures
            is_request(
                r,
                self.client_spec(),
                "GET"@,
                "/team/usage"@,
                seq![],
                None,
                seq![],
            ),
    {
        self.client.build_request("GET", "/team/usage", &[], None, None)
    }

    /// The members of the team.
    pub fn members(&self, query: &[(&str, &str)]) -> (r: HttpRequest)
        ensures
            is_request(
                r,
                self.client_spec(),
                "GET"@,
                "/team/members"@,
                query_views(query@),
                None,
                seq![],
            ),
    {
        self.client.build_request("GET", "/team/members", query, None, None)
    }

    /// One member of the team.
    pub fn member(&self, member_id: &str) -> (r: HttpRequest)
        ensures
            is_request(
                r,
                self.client_spec(),
                "GET"@,
                "/team/members/"@ + url_encoded(member_id@) + ""@,
                seq![],
                None,
                seq![],
            ),
    {
        let path = resource_path("/team/members/", member_id, "");
        self.client.build_request("GET", path.as_str(), &[], None, None)
    }

    /// Changes the role and project access of a member of the team.
    pub fn update_member_assignment(&self, member_id: &str, payload: String) -> (r: HttpRequest)
        ensures
            is_request(
                r,
                self.client_spec(),
                "PUT"@,
                "/team/members/"@ + url_encoded(member_id@) + "/assignment"@,
                seq![],
                Some(payload@),
                seq![],
            ),
    {
        let path = resource_path("/team/members/", member_id, "/assignment");
        self.client.build_request("PUT", path.as_str(), &[], Some(payload), None)
    }

    /// The roles that members of the team can have.
    pub fn roles(&self) -> (r: HttpRequest)
        ensures
            is_request(
                r,
                self.client_spec(),
                "GET"@,
                "/team/roles"@,
                seq![],
                None,
                seq![],
            ),
    {
        self.client.build_request("GET", "/team/roles", &[], None, None)
    }

}

/// The requests of the Team API on webhooks.
pub struct Webhooks<'a, T> {
    client: &'a HttpClient<T>,
}

impl<'a, T> Webhooks<'a, T> {
    /// The client the requests are made for.
    pub closed spec fn client_spec(&self) -> HttpClient<T> {
        *self.client
    }

    /// The requests on webhooks for `client`.
    pub fn new(client: &'a HttpClient<T>) -> (r: Webhooks<'a, T>)
        ensures
            r.client_spec() == *client,
    {
        Webhooks { client }
    }

    /// The webhooks of the team.
    pub fn list(&self, query: &[(&str, &str)]) -> (r: HttpRequest)
        ensures
            is_request(
                r,
                self.client_spec(),
                "GET"@,
                "/webhooks"@,
                query_views(query@),
                None,
                seq![],
            ),
    {
        self.client.build_request("GET", "/webhooks", query, None, None)
    }

    /// Adds a webhook.
    pub fn create(&self, payload: String) -> (r: HttpRequest)
        ensures
            is_request(
                r,
                self.client_spec(),
                "POST"@,
                "/webhooks"@,
                seq![],
                Some(payload@),
                seq![],
            ),
    {
        self.client.build_request("POST", "/webhooks", &[], Some(payload), None)
    }

    /// One webhook.
    pub fn retrieve(&self, webhook_id: &str) -> (r: HttpRequest)
        ensures
            is_request(
                r,
                self.client_spec(),
                "GET"@,
                "/webhooks/"@ + url_encoded(webhook_id@) + ""@,
                seq![],
                None,
                seq![],
            ),
    {
        let path = resource_path("/webhooks/", webhook_id, "");
        self.client.build_request("GET", path.as_str(), &[], None, None)
    }

    /// Changes a webhook.
    pub fn update(&self, webhook_id: &str, payload: String) -> (r: HttpRequest)
        ensures
            is_request(
                r,
                self.client_spec(),
                "PUT"@,
                "/webhooks/"@ + url_encoded(webhook_id@) + ""@,
                seq![],
                Some(payload@),
                seq![],
            ),
    {
        let path = resource_path("/webhooks/", webhook_id, "");
        self.client.build_request("PUT", path.as_str(), &[], Some(payload), None)
    }

    /// Removes a webhook.
    pub fn delete(&self, webhook_id: &str) -> (r: HttpRequest)
        ensures
            is_request(
                r,
                self.client_spec(),
                "DELETE"@,
                "/webhooks/"@ + url_encoded(webhook_id@) + ""@,
                seq![],
                None,
                seq![],
            ),
    {
        let path = resource_path("/webhooks/", webhook_id, "");
        self.client.build_request("DELETE", path.as_str(), &[], None, None)
    }

    /// Sends a test delivery to a webhook.
    pub fn test(&self, webhook_id: &str) -> (r: HttpRequest)
        ensures
            is_request(
                r,
                self.client_spec(),
                "POST"@,
                "/webhooks/"@ + url_encoded(webhook_id@) + "/test"@,
                seq![],
                Some(EMPTY_BODY@),
                seq![],
            ),
    {
        let path = resource_path("/webhooks/", webhook_id, "/test");
        self.client.build_request("POST", path.as_str(), &[], Some(EMPTY_BODY.to_owned()), None)
    }

    /// Replaces the signing secret of a webhook.
    pub fn regenerate_secret(&self, webhook_id: &str) -> (r: HttpRequest)
        ensures
            is_request(
                r,
                self.client_spec(),
                "POST"@,
                "/webhooks/"@ + url_encoded(webhook_id@) + "/regenerate-secret"@,
                seq![],
                Some(EMPTY_BODY@),
                seq![],
            ),
    {
        let path = resource_path("/webhooks/", webhook_id, "/regenerate-secret");
        self.client.build_request("POST", path.as_str(), &[], Some(EMPTY_BODY.to_owned()), None)
    }

    /// The deliveries of a webhook.
    pub fn deliveries(&self, webhook_id: &str, query: &[(&str, &str)]) -> (r: HttpRequest)
        ensures
            is_request(
                r,
                self.client_spec(),
                "GET"@,
                "/webhooks/"@ + url_encoded(webhook_id@) + "/deliveries"@,
                query_views(query@),
                None,
                seq![],
            ),
    {
        let path = resource_path("/webhooks/", webhook_id, "/deliveries");
        self.client.build_request("GET", path.as_str(), query, None, None)
    }

    /// One delivery of a webhook.
    pub fn delivery(&self, webhook_id: &str, delivery_id: &str) -> (r: HttpRequest)
        ensures
            is_request(
                r,
                self.client_spec(),
                "GET"@,
                "/webhooks/"@ + url_encoded(webhook_id@) + "/deliveries/"@ + url_encoded(delivery_id@) + ""@,
                seq![],
                None,
                seq![],
            ),
    {
        let path = resource_path2("/webhooks/", webhook_id, "/deliveries/", delivery_id, "");
        self.client.build_request("GET", path.as_str(), &[], None, None)
    }

}

impl<T> ApiClient<T> {
    /// The file types that attachments may not have.
    pub fn blocked_file_types(&self) -> (r: HttpRequest)
        ensures
            is_request(
                r,
                self.http_spec(),
                "GET"@,
                "/blocked-file-types"@,
                seq![],
                None,
                seq![],
            ),
    {
        self.http().get("/blocked-file-types", &[])
    }

    /// The requests on the domains of the team.
    pub fn domains(&self) -> (r: Domains<'_, T>)
        ensures
            r.client_spec() == self.http_spec(),
    {
        Domains::new(self.http())
    }

    /// The requests on the messages of the team.
    pub fn messages(&self) -> (r: Messages<'_, T>)
        ensures
            r.client_spec() == self.http_spec(),
    {
        Messages::new(self.http())
    }

    /// The requests on the projects of the team.
    pub fn projects(&self) -> (r: Projects<'_, T>)
        ensures
            r.client_spec() == self.http_spec(),
    {
        Projects::new(self.http())
    }

    /// The requests on the routes of the team.
    pub fn routes(&self) -> (r: Routes<'_, T>)
        ensures
            r.client_spec() == self.http_spec(),
    {
        Routes::new(self.http())
    }

    /// The requests on the stats of the team.
    pub fn stats(&self) -> (r: Stats<'_, T>)
        ensures
            r.client_spec() == self.http_spec(),
    {
        Stats::new(self.http())
    }

    /// The requests on the suppressions of the team.
    pub fn suppressions(&self) -> (r: Suppressions<'_, T>)
        ensures
            r.client_spec() == self.http_spec(),
    {
        Suppressions::new(self.http())
    }

    /// The requests on the team itself and its members.
    pub fn team(&self) -> (r: Team<'_, T>)
        ensures
            r.client_spec() == self.http_spec(),
    {
        Team::new(self.http())
    }

    /// The requests on the webhooks of the team.
    pub fn webhooks(&self) -> (r: Webhooks<'_, T>)
        ensures
            r.client_spec() == self.http_spec(),
    {
        Webhooks::new(self.http())
    }
}

} // verus!
