//! The conversation with the Docker daemon: which requests are sent, and what each reply
//! decides.
use vstd::prelude::*;
use crate::http::Reply;
use crate::identity::{real_user_id, RealUid};
use crate::text::same_text;

verus! {

/// The image of the container that holds the network namespace open.
pub const SLOTH_IMAGE: &'static str = "optionfactory/sloth:226";

/// Where the daemon listens when `DOCKER_HOST` names no Unix socket.
pub const DEFAULT_SOCKET_PATH: &'static str = "/var/run/docker.sock";

/// The HTTP methods the client uses.
#[derive(Clone, Copy, PartialEq, Eq, Structural)]
pub enum Method {
    Get,
    Post,
    Delete,
}

/// How a method is written in a request line.
pub open spec fn method_text(m: Method) -> Seq<char> {
    match m {
        Method::Get => "GET"@,
        Method::Post => "POST"@,
        Method::Delete => "DELETE"@,
    }
}

impl Method {
    /// How this method is written in a request line.
    pub fn as_str(&self) -> (r: &'static str)
        ensures
            r@ == method_text(*self),
    {
        match self {
            Method::Get => "GET",
            Method::Post => "POST",
            Method::Delete => "DELETE",
        }
    }
}

/// What the container that holds the namespace is made of; sent as the JSON body of the
/// create request.
pub struct ContainerSpec {
    pub image: String,
    pub network: String,
    pub ipv4_address: String,
}

/// A `ContainerSpec` as values.
pub struct ContainerSpecView {
    pub image: Seq<char>,
    pub network: Seq<char>,
    pub ipv4_address: Seq<char>,
}

impl View for ContainerSpec {
    type V = ContainerSpecView;

    open spec fn view(&self) -> ContainerSpecView {
        ContainerSpecView {
            image: self.image@,
            network: self.network@,
            ipv4_address: self.ipv4_address@,
        }
    }
}

/// A request to the daemon; `payload`, when there is one, goes as its JSON body.
pub struct Request {
    pub method: Method,
    pub path: String,
    pub payload: Option<ContainerSpec>,
}

/// A `Request` as values.
pub struct RequestView {
    pub method: Method,
    pub path: Seq<char>,
    pub payload: Option<ContainerSpecView>,
}

impl View for Request {
    type V = RequestView;

    open spec fn view(&self) -> RequestView {
        RequestView {
            method: self.method,
            path: self.path@,
            payload: match self.payload {
                Some(p) => Some(p@),
                None => None,
            },
        }
    }
}

/// A request without a body.
pub open spec fn plain(method: Method, path: Seq<char>) -> RequestView {
    RequestView { method, path, payload: None }
}

/// Asks whether the holder image is present.
pub open spec fn image_check_request() -> RequestView {
    plain(Method::Get, "/images/"@ + SLOTH_IMAGE@ + "/json"@)
}

/// Asks the daemon to pull the holder image.
pub open spec fn image_pull_request() -> RequestView {
    plain(Method::Post, "/images/create?fromImage="@ + SLOTH_IMAGE@)
}

/// Removes the container `name`, running or not.
pub open spec fn remove_request(name: Seq<char>) -> RequestView {
    plain(Method::Delete, "/containers/"@ + name + "?force=true"@)
}

/// Creates the holder container `name` on network `net` with address `ip`.
pub open spec fn create_request(name: Seq<char>, net: Seq<char>, ip: Seq<char>) -> RequestView {
    RequestView {
        method: Method::Post,
        path: "/containers/create?name="@ + name,
        payload: Some(ContainerSpecView { image: SLOTH_IMAGE@, network: net, ipv4_address: ip }),
    }
}

/// Starts the container `name`.
pub open spec fn start_request(name: Seq<char>) -> RequestView {
    plain(Method::Post, "/containers/"@ + name + "/start"@)
}

/// Asks for the state of the container `name`.
pub open spec fn inspect_request(name: Seq<char>) -> RequestView {
    plain(Method::Get, "/containers/"@ + name + "/json"@)
}

/// Asks whether the daemon answers.
pub open spec fn ping_request_view() -> RequestView {
    plain(Method::Get, "/_ping"@)
}

fn request(method: Method, path: String) -> (r: Request)
    ensures
        r@ == plain(method, path@),
{
    Request { method, path, payload: None }
}

/// A reply as values: status and body, or why no reply came.
pub open spec fn reply_view(r: Result<Reply, String>) -> Result<(u16, Seq<char>), Seq<char>> {
    match r {
        Ok(reply) => Ok((reply.status, reply.body@)),
        Err(e) => Err(e@),
    }
}

/// The socket path that `DOCKER_HOST` names: what follows `unix://` when it starts so, else the
/// default socket.
pub open spec fn socket_path_for(docker_host: Option<Seq<char>>) -> Seq<char> {
    match docker_host {
        Some(h) => if h.len() >= 7 && h.take(7) == "unix://"@ {
            h.skip(7)
        } else {
            DEFAULT_SOCKET_PATH@
        },
        None => DEFAULT_SOCKET_PATH@,
    }
}

/// Finds the daemon's socket from the value of `DOCKER_HOST`, if it is set.
pub fn resolve_socket_path(docker_host: Option<&str>) -> (r: String)
    ensures
        r@ == socket_path_for(match docker_host { Some(h) => Some(h@), None => None }),
{
    if let Some(host) = docker_host {
        let n = host.unicode_len();
        if n >= 7 {
            let head = host.substring_char(0, 7);
            if same_text(head, "unix://") {
                return String::from_str(host.substring_char(7, n));
            }
        }
    }
    String::from_str(DEFAULT_SOCKET_PATH)
}

/// A client of the daemon that listens on `socket_path`, a socket owned by `socket_uid`.
pub struct DockerClient {
    pub socket_path: String,
    pub socket_uid: u32,
    pub verbose: bool,
}

/// What opening a client gives, given the real user id of the process and the owner of the
/// socket (`None` when the socket cannot be found): the socket must be owned by root or by
/// the user.
pub open spec fn client_outcome(verbose: bool, socket_path: Seq<char>, real_uid: u32, socket_owner: Option<u32>) -> Result<(Seq<char>, u32, bool), Seq<char>> {
    match socket_owner {
        None => Err("Socket not found at "@ + socket_path),
        Some(owner) => if owner != 0 && owner != real_uid {
            Err("Socket owner mismatch."@)
        } else {
            Ok((socket_path, owner, verbose))
        },
    }
}

impl DockerClient {
    /// Opens a client of the daemon at `socket_path` for the user `real_uid`; `socket_owner` is
    /// the owner of the socket file, `None` when it cannot be found.
    pub fn with_owner(verbose: bool, socket_path: String, real_uid: u32, socket_owner: Option<u32>) -> (r: Result<DockerClient, String>)
        ensures
            match client_outcome(verbose, socket_path@, real_uid, socket_owner) {
                Ok((path, uid, v)) => r matches Ok(c) && c.socket_path@ == path && c.socket_uid == uid && c.verbose == v,
                Err(e) => r matches Err(m) && m@ == e,
            },
    {
        match socket_owner {
            None => Err(String::from_str("Socket not found at ").concat(socket_path.as_str())),
            Some(owner) => if owner != 0 && owner != real_uid {
                Err(String::from_str("Socket owner mismatch."))
            } else {
                Ok(DockerClient { socket_path, socket_uid: owner, verbose })
            },
        }
    }

    /// Opens a client of the daemon at `socket_path` for the real user of this process;
    /// `socket_owner` is the owner of the socket file, `None` when it cannot be found. Gives the
    /// client (or why there is none) and the real user id the owner was checked against.
    pub fn new(verbose: bool, socket_path: String, socket_owner: Option<u32>) -> (r: (Result<DockerClient, String>, RealUid))
        ensures
            match client_outcome(verbose, socket_path@, r.1.uid(), socket_owner) {
                Ok((path, uid, v)) => r.0 matches Ok(c) && c.socket_path@ == path && c.socket_uid == uid && c.verbose == v,
                Err(e) => r.0 matches Err(m) && m@ == e,
            },
    {
        let user = real_user_id();
        let client = DockerClient::with_owner(verbose, socket_path, user.get(), socket_owner);
        (client, user)
    }

    /// The request that asks whether the daemon answers.
    pub fn ping_request() -> (r: Request)
        ensures
            r@ == ping_request_view(),
    {
        request(Method::Get, String::from_str("/_ping"))
    }

    /// Decides on the reply to the ping request: the daemon must answer 200.
    pub fn ping(&self, reply: Result<Reply, String>) -> (r: Result<(), String>)
        ensures
            match reply_view(reply) {
                Err(e) => r matches Err(m) && m@ == e,
                Ok((status, _)) => if status == 200 {
                    r is Ok
                } else {
                    r matches Err(m) && m@ == "Docker daemon is not responding over the socket."@
                },
            },
    {
        match reply {
            Err(e) => Err(e),
            Ok(reply) => if reply.status != 200 {
                Err(String::from_str("Docker daemon is not responding over the socket."))
            } else {
                Ok(())
            },
        }
    }
}


/// Where provisioning of the holder container stands: the request of that stage has been
/// sent and its reply is awaited.
#[derive(Clone, Copy, PartialEq, Eq, Structural)]
pub enum Stage {
    /// Asked whether the image is present.
    CheckingImage,
    /// Asked the daemon to pull the image.
    PullingImage,
    /// Asked the daemon to remove a container left with the same name.
    RemovingStale,
    /// Asked the daemon to create the container.
    Creating,
    /// Asked the daemon to start the container.
    Starting,
}

/// Provisioning of the holder container `name` on network `net` with address `ip`.
pub struct Provision {
    pub name: String,
    pub net: String,
    pub ip: String,
    pub stage: Stage,
}

/// A `Provision` as values.
pub struct ProvisionView {
    pub name: Seq<char>,
    pub net: Seq<char>,
    pub ip: Seq<char>,
    pub stage: Stage,
}

impl View for Provision {
    type V = ProvisionView;

    open spec fn view(&self) -> ProvisionView {
        ProvisionView { name: self.name@, net: self.net@, ip: self.ip@, stage: self.stage }
    }
}

/// The same provisioning, moved to `stage`.
pub open spec fn at_stage(p: ProvisionView, stage: Stage) -> ProvisionView {
    ProvisionView { stage, ..p }
}

/// The running holder container; removing it (`cleanup_request`) is what its owner does when
/// the command has ended.
pub struct ContainerGuard {
    pub name: String,
}

impl ContainerGuard {
    /// The request that removes the container, running or not.
    pub fn cleanup_request(&self) -> (r: Request)
        ensures
            r@ == remove_request(self.name@),
    {
        remove_container_request(self.name.as_str())
    }
}

/// What a reply to a provisioning request leads to.
pub enum ProvisionStep {
    /// Send this request; the provisioning now stands as given.
    Send(Provision, Request),
    /// Provisioning has ended: with the running container, or with why it failed.
    Done(Result<ContainerGuard, String>),
}

/// A `ProvisionStep` as values; a finished provisioning gives the container's name.
pub enum ProvisionStepView {
    Send(ProvisionView, RequestView),
    Done(Result<Seq<char>, Seq<char>>),
}

impl View for ProvisionStep {
    type V = ProvisionStepView;

    open spec fn view(&self) -> ProvisionStepView {
        match self {
            ProvisionStep::Send(p, r) => ProvisionStepView::Send(p@, r@),
            ProvisionStep::Done(Ok(g)) => ProvisionStepView::Done(Ok(g.name@)),
            ProvisionStep::Done(Err(e)) => ProvisionStepView::Done(Err(e@)),
        }
    }
}

/// How provisioning goes on from `p` on `reply`. The image is pulled when the daemon does not
/// answer 200 to the check, and the pull must answer 200; then any container of the same name
/// is removed, whatever the daemon answers; creation must answer 201 and the start 204. Where
/// no reply came, provisioning fails with the reason.
pub open spec fn provision_next(p: ProvisionView, reply: Result<(u16, Seq<char>), Seq<char>>) -> ProvisionStepView {
    match p.stage {
        Stage::CheckingImage => match reply {
            Err(e) => ProvisionStepView::Done(Err(e)),
            Ok((status, _)) => if status == 200 {
                ProvisionStepView::Send(at_stage(p, Stage::RemovingStale), remove_request(p.name))
            } else {
                ProvisionStepView::Send(at_stage(p, Stage::PullingImage), image_pull_request())
            },
        },
        Stage::PullingImage => match reply {
            Err(e) => ProvisionStepView::Done(Err(e)),
            Ok((status, body)) => if status == 200 {
                ProvisionStepView::Send(at_stage(p, Stage::RemovingStale), remove_request(p.name))
            } else {
                ProvisionStepView::Done(
                    Err("Failed to pull Docker image '"@ + SLOTH_IMAGE@ + "': "@ + body),
                )
            },
        },
        Stage::RemovingStale => ProvisionStepView::Send(
            at_stage(p, Stage::Creating),
            create_request(p.name, p.net, p.ip),
        ),
        Stage::Creating => match reply {
            Err(e) => ProvisionStepView::Done(Err(e)),
            Ok((status, body)) => if status == 201 {
                ProvisionStepView::Send(at_stage(p, Stage::Starting), start_request(p.name))
            } else {
                ProvisionStepView::Done(Err("Docker allocation failure: "@ + body))
            },
        },
        Stage::Starting => match reply {
            Err(e) => ProvisionStepView::Done(Err(e)),
            Ok((status, body)) => if status == 204 {
                ProvisionStepView::Done(Ok(p.name))
            } else {
                ProvisionStepView::Done(Err("Docker start failure: "@ + body))
            },
        },
    }
}

fn remove_container_request(name: &str) -> (r: Request)
    ensures
        r@ == remove_request(name@),
{
    request(
        Method::Delete,
        String::from_str("/containers/").concat(name).concat("?force=true"),
    )
}

fn named_container_request(method: Method, name: &str, tail: &str) -> (r: Request)
    ensures
        r@ == plain(method, "/containers/"@ + name@ + tail@),
{
    request(method, String::from_str("/containers/").concat(name).concat(tail))
}

impl Provision {
    /// Begins provisioning the holder container `name` on network `net` with address `ip`:
    /// the first request asks whether the image is present.
    pub fn start(name: &str, net: &str, ip: &str) -> (r: (Provision, Request))
        ensures
            r.0@ == (ProvisionView { name: name@, net: net@, ip: ip@, stage: Stage::CheckingImage }),
            r.1@ == image_check_request(),
    {
        let p = Provision {
            name: String::from_str(name),
            net: String::from_str(net),
            ip: String::from_str(ip),
            stage: Stage::CheckingImage,
        };
        let path = String::from_str("/images/").concat(SLOTH_IMAGE).concat("/json");
        (p, request(Method::Get, path))
    }
}

impl DockerClient {
    /// Takes provisioning of the holder container one step on, on the reply to its last
    /// request.
    pub fn provision_network_holder(&self, state: Provision, reply: Result<Reply, String>) -> (r: ProvisionStep)
        ensures
            r@ == provision_next(state@, reply_view(reply)),
    {
        let ghost p = state@;
        let Provision { name, net, ip, stage } = state;
        match stage {
            Stage::CheckingImage => match reply {
                Err(e) => ProvisionStep::Done(Err(e)),
                Ok(reply) => if reply.status == 200 {
                    let req = remove_container_request(name.as_str());
                    ProvisionStep::Send(Provision { name, net, ip, stage: Stage::RemovingStale }, req)
                } else {
                    let req = request(
                        Method::Post,
                        String::from_str("/images/create?fromImage=").concat(SLOTH_IMAGE),
                    );
                    ProvisionStep::Send(Provision { name, net, ip, stage: Stage::PullingImage }, req)
                },
            },
            Stage::PullingImage => match reply {
                Err(e) => ProvisionStep::Done(Err(e)),
                Ok(reply) => if reply.status == 200 {
                    let req = remove_container_request(name.as_str());
                    ProvisionStep::Send(Provision { name, net, ip, stage: Stage::RemovingStale }, req)
                } else {
                    ProvisionStep::Done(
                        Err(
                            String::from_str("Failed to pull Docker image '").concat(
                                SLOTH_IMAGE,
                            ).concat("': ").concat(reply.body.as_str()),
                        ),
                    )
                },
            },
            Stage::RemovingStale => {
                let path = String::from_str("/containers/create?name=").concat(name.as_str());
                let spec = ContainerSpec {
                    image: String::from_str(SLOTH_IMAGE),
                    network: net.clone(),
                    ipv4_address: ip.clone(),
                };
                let req = Request { method: Method::Post, path, payload: Some(spec) };
                ProvisionStep::Send(Provision { name, net, ip, stage: Stage::Creating }, req)
            },
            Stage::Creating => match reply {
                Err(e) => ProvisionStep::Done(Err(e)),
                Ok(reply) => if reply.status == 201 {
                    let req = named_container_request(Method::Post, name.as_str(), "/start");
                    ProvisionStep::Send(Provision { name, net, ip, stage: Stage::Starting }, req)
                } else {
                    ProvisionStep::Done(
                        Err(String::from_str("Docker allocation failure: ").concat(reply.body.as_str())),
                    )
                },
            },
            Stage::Starting => match reply {
                Err(e) => ProvisionStep::Done(Err(e)),
                Ok(reply) => if reply.status == 204 {
                    ProvisionStep::Done(Ok(ContainerGuard { name }))
                } else {
                    ProvisionStep::Done(
                        Err(String::from_str("Docker start failure: ").concat(reply.body.as_str())),
                    )
                },
            },
        }
    }

    /// The request that asks for the state of the container `name`.
    pub fn container_state_request(name: &str) -> (r: Request)
        ensures
            r@ == inspect_request(name@),
    {
        named_container_request(Method::Get, name, "/json")
    }

    /// Decides on the reply to the state request: it must answer 200, and then its body is to
    /// be read for the container's process id.
    pub fn get_container_pid(&self, reply: Result<Reply, String>) -> (r: PidStep)
        ensures
            r@ == pid_reply_step(reply_view(reply)),
    {
        match reply {
            Err(e) => PidStep::Done(Err(e)),
            Ok(reply) => if reply.status != 200 {
                PidStep::Done(
                    Err(String::from_str("Docker state inspection failure: ").concat(reply.body.as_str())),
                )
            } else {
                PidStep::ReadState(reply.body)
            },
        }
    }

    /// Decides on the process id read from the container's state (or why it could not be
    /// read): a container whose process id is not positive is not running.
    pub fn checked_pid(state_pid: Result<i32, String>) -> (r: Result<i32, String>)
        ensures
            match state_pid {
                Err(e) => r matches Err(m) && m@ == e@,
                Ok(pid) => if pid <= 0 {
                    r matches Err(m) && m@ == "Container holder is not running. Ensure the image is valid and try again."@
                } else {
                    r == Ok::<i32, String>(pid)
                },
            },
    {
        match state_pid {
            Err(e) => Err(e),
            Ok(pid) => if pid <= 0 {
                Err(
                    String::from_str(
                        "Container holder is not running. Ensure the image is valid and try again.",
                    ),
                )
            } else {
                Ok(pid)
            },
        }
    }
}

/// What the reply to the state request leads to.
pub enum PidStep {
    /// Read the process id out of this body (the container's state, in JSON).
    ReadState(String),
    /// The process id, or why there is none.
    Done(Result<i32, String>),
}

/// A `PidStep` as values.
pub enum PidStepView {
    ReadState(Seq<char>),
    Done(Result<i32, Seq<char>>),
}

impl View for PidStep {
    type V = PidStepView;

    open spec fn view(&self) -> PidStepView {
        match self {
            PidStep::ReadState(b) => PidStepView::ReadState(b@),
            PidStep::Done(Ok(pid)) => PidStepView::Done(Ok(*pid)),
            PidStep::Done(Err(e)) => PidStepView::Done(Err(e@)),
        }
    }
}

/// What the reply to the state request leads to: without a reply, its reason; a status other
/// than 200 fails with the body; otherwise the body is read.
pub open spec fn pid_reply_step(reply: Result<(u16, Seq<char>), Seq<char>>) -> PidStepView {
    match reply {
        Err(e) => PidStepView::Done(Err(e)),
        Ok((status, body)) => if status != 200 {
            PidStepView::Done(Err("Docker state inspection failure: "@ + body))
        } else {
            PidStepView::ReadState(body)
        },
    }
}


/// The request whose reply provisioning awaits in `p`'s stage.
pub open spec fn stage_request(p: ProvisionView) -> RequestView {
    match p.stage {
        Stage::CheckingImage => image_check_request(),
        Stage::PullingImage => image_pull_request(),
        Stage::RemovingStale => remove_request(p.name),
        Stage::Creating => create_request(p.name, p.net, p.ip),
        Stage::Starting => start_request(p.name),
    }
}

/// Where provisioning stands after `p` is fed `replies` in order: still going, with the request
/// it awaits the reply to, or ended (replies after the end are not read).
pub open spec fn provision_run(p: ProvisionView, replies: Seq<Result<(u16, Seq<char>), Seq<char>>>) -> ProvisionStepView
    decreases replies.len(),
{
    if replies.len() == 0 {
        ProvisionStepView::Send(p, stage_request(p))
    } else {
        match provision_next(p, replies[0]) {
            ProvisionStepView::Send(q, _) => provision_run(q, replies.drop_first()),
            ProvisionStepView::Done(outcome) => ProvisionStepView::Done(outcome),
        }
    }
}

/// Whether a reply came with status `status`.
pub open spec fn answered(reply: Result<(u16, Seq<char>), Seq<char>>, status: u16) -> bool {
    reply matches Ok((s, _)) && s == status
}

/// Provisioning always works on the container, network and address it began with, and each
/// request it sends is the one its new stage awaits the reply to.
pub proof fn lemma_provision_step_keeps_target(p: ProvisionView, reply: Result<(u16, Seq<char>), Seq<char>>)
    ensures
        provision_next(p, reply) matches ProvisionStepView::Send(q, request) ==> q.name == p.name
            && q.net == p.net && q.ip == p.ip && request == stage_request(q),
{
}

/// Removing a stale container of the same name is only a precaution: whatever the daemon
/// answers to it (404 when there is none, any other status, or no answer at all), provisioning
/// goes on to create the container, and two answers to the removal lead to the same step.
pub proof fn lemma_stale_removal_answer_ignored(p: ProvisionView, reply: Result<(u16, Seq<char>), Seq<char>>, other: Result<(u16, Seq<char>), Seq<char>>)
    requires
        p.stage == Stage::RemovingStale,
    ensures
        provision_next(p, reply) == ProvisionStepView::Send(
            ProvisionView { name: p.name, net: p.net, ip: p.ip, stage: Stage::Creating },
            RequestView {
                method: Method::Post,
                path: "/containers/create?name="@ + p.name,
                payload: Some(
                    ContainerSpecView { image: SLOTH_IMAGE@, network: p.net, ipv4_address: p.ip },
                ),
            },
        ),
        provision_next(p, reply) == provision_next(p, other),
        !(provision_next(p, reply) is Done),
{
}

/// Provisioning succeeds only when the daemon had the image (it answered 200 to the check, or
/// to the pull that followed any other answer), then answered 201 to the creation and 204 to
/// the start; and the container it gives is the one it was asked for.
pub proof fn lemma_provision_success(name: Seq<char>, net: Seq<char>, ip: Seq<char>, replies: Seq<Result<(u16, Seq<char>), Seq<char>>>, container: Seq<char>)
    requires
        provision_run(ProvisionView { name, net, ip, stage: Stage::CheckingImage }, replies)
            == ProvisionStepView::Done(Ok::<Seq<char>, Seq<char>>(container)),
    ensures
        container == name,
        (replies.len() >= 4 && answered(replies[0], 200) && answered(replies[2], 201) && answered(
            replies[3],
            204,
        )) || (replies.len() >= 5 && replies[0] is Ok && !answered(replies[0], 200) && answered(
            replies[1],
            200,
        ) && answered(replies[3], 201) && answered(replies[4], 204)),
{
    let p0 = ProvisionView { name, net, ip, stage: Stage::CheckingImage };
    let r0 = replies;
    let r1 = r0.drop_first();
    let r2 = r1.drop_first();
    let r3 = r2.drop_first();
    let r4 = r3.drop_first();
    let r5 = r4.drop_first();
    assert(replies.len() > 0);
    if answered(replies[0], 200) {
        let p1 = at_stage(p0, Stage::RemovingStale);
        assert(provision_run(p0, r0) == provision_run(p1, r1));
        assert(r1.len() > 0);
        let p2 = at_stage(p0, Stage::Creating);
        assert(provision_run(p1, r1) == provision_run(p2, r2));
        assert(r2.len() > 0);
        assert(r2[0] == replies[2]);
        assert(answered(replies[2], 201));
        let p3 = at_stage(p0, Stage::Starting);
        assert(provision_run(p2, r2) == provision_run(p3, r3));
        assert(r3.len() > 0);
        assert(r3[0] == replies[3]);
    } else {
        assert(replies[0] is Ok);
        let p1 = at_stage(p0, Stage::PullingImage);
        assert(provision_run(p0, r0) == provision_run(p1, r1));
        assert(r1.len() > 0);
        assert(r1[0] == replies[1]);
        assert(answered(replies[1], 200));
        let p2 = at_stage(p0, Stage::RemovingStale);
        assert(provision_run(p1, r1) == provision_run(p2, r2));
        assert(r2.len() > 0);
        let p3 = at_stage(p0, Stage::Creating);
        assert(provision_run(p2, r2) == provision_run(p3, r3));
        assert(r3.len() > 0);
        assert(r3[0] == replies[3]);
        assert(answered(replies[3], 201));
        let p4 = at_stage(p0, Stage::Starting);
        assert(provision_run(p3, r3) == provision_run(p4, r4));
        assert(r4.len() > 0);
        assert(r4[0] == replies[4]);
    }
}

} // verus!
