use docker_intrude::docker::{
    DockerClient, Method, PidStep, Provision, ProvisionStep, Request, Stage, ContainerGuard, resolve_socket_path, SLOTH_IMAGE,
};
use docker_intrude::http::Reply;

fn client() -> DockerClient {
    DockerClient::with_owner(false, "/var/run/docker.sock".to_string(), 1000, Some(0)).ok().unwrap()
}

fn ok(status: u16, body: &str) -> Result<Reply, String> {
    Ok(Reply { status, body: body.to_string() })
}

fn sent(step: ProvisionStep) -> (Provision, Request) {
    match step {
        ProvisionStep::Send(p, r) => (p, r),
        ProvisionStep::Done(_) => panic!("expected a request"),
    }
}

fn failure(step: ProvisionStep) -> String {
    match step {
        ProvisionStep::Done(Err(e)) => e,
        _ => panic!("expected a failure"),
    }
}

#[test]
fn socket_path_from_docker_host() {
    assert_eq!(resolve_socket_path(None), "/var/run/docker.sock");
    assert_eq!(resolve_socket_path(Some("unix:///run/user/1000/docker.sock")), "/run/user/1000/docker.sock");
    assert_eq!(resolve_socket_path(Some("tcp://localhost:2375")), "/var/run/docker.sock");
    assert_eq!(resolve_socket_path(Some("unix://")), "");
    assert_eq!(resolve_socket_path(Some("unix:")), "/var/run/docker.sock");
}

#[test]
fn client_socket_owner() {
    let c = DockerClient::with_owner(true, "/s".to_string(), 1000, Some(1000)).ok().unwrap();
    assert_eq!(c.socket_uid, 1000);
    assert!(c.verbose);
    assert_eq!(c.socket_path, "/s");
    assert_eq!(DockerClient::with_owner(false, "/s".to_string(), 1000, Some(0)).ok().unwrap().socket_uid, 0);
    assert_eq!(DockerClient::with_owner(false, "/s".to_string(), 1000, Some(1001)).err().unwrap(), "Socket owner mismatch.");
    assert_eq!(DockerClient::with_owner(false, "/x/y".to_string(), 1000, None).err().unwrap(), "Socket not found at /x/y");
}

#[test]
fn client_for_this_process() {
    assert_eq!(DockerClient::new(false, "/p".to_string(), None).0.err().unwrap(), "Socket not found at /p");
    let (client, user) = DockerClient::new(false, "/p".to_string(), Some(0));
    assert_eq!(client.ok().unwrap().socket_uid, 0);
    // The user id checked against is this process's real user id.
    let real = nix::unistd::getuid().as_raw();
    assert_eq!(user.get(), real);
    let (own, _) = DockerClient::new(false, "/p".to_string(), Some(real));
    assert_eq!(own.ok().unwrap().socket_uid, real);
    let other = if real == 4242 { 4243 } else { 4242 };
    let (foreign, _) = DockerClient::new(false, "/p".to_string(), Some(other));
    if real != 0 {
        assert_eq!(foreign.err().unwrap(), "Socket owner mismatch.");
    }
}

#[test]
fn ping_decisions() {
    let c = client();
    let r = DockerClient::ping_request();
    assert!(r.method == Method::Get);
    assert_eq!(r.path, "/_ping");
    assert!(r.payload.is_none());
    assert!(c.ping(ok(200, "OK")).is_ok());
    assert_eq!(c.ping(ok(500, "")).err().unwrap(), "Docker daemon is not responding over the socket.");
    assert_eq!(c.ping(Err("connection refused".to_string())).err().unwrap(), "connection refused");
}

#[test]
fn provisioning_with_image_present() {
    let c = client();
    let (p, r) = Provision::start("holder", "dev-net", "172.18.0.22");
    assert!(p.stage == Stage::CheckingImage);
    assert!(r.method == Method::Get);
    assert_eq!(r.path, format!("/images/{}/json", SLOTH_IMAGE));
    let (p, r) = sent(c.provision_network_holder(p, ok(200, "{}")));
    assert!(p.stage == Stage::RemovingStale);
    assert!(r.method == Method::Delete);
    assert_eq!(r.path, "/containers/holder?force=true");
    let (p, r) = sent(c.provision_network_holder(p, Err("no such container".to_string())));
    assert!(p.stage == Stage::Creating);
    assert!(r.method == Method::Post);
    assert_eq!(r.path, "/containers/create?name=holder");
    let spec = r.payload.expect("create carries the container");
    assert_eq!(spec.image, "optionfactory/sloth:226");
    assert_eq!(spec.network, "dev-net");
    assert_eq!(spec.ipv4_address, "172.18.0.22");
    let (p, r) = sent(c.provision_network_holder(p, ok(201, "{\"Id\":\"1\"}")));
    assert!(p.stage == Stage::Starting);
    assert_eq!(r.path, "/containers/holder/start");
    match c.provision_network_holder(p, ok(204, "")) {
        ProvisionStep::Done(Ok(guard)) => {
            assert_eq!(guard.name, "holder");
            let cleanup = guard.cleanup_request();
            assert!(cleanup.method == Method::Delete);
            assert_eq!(cleanup.path, "/containers/holder?force=true");
        }
        _ => panic!("expected the container"),
    }
}

#[test]
fn provisioning_pulls_missing_image() {
    let c = client();
    let (p, _) = Provision::start("h", "n", "1.2.3.4");
    let (p, r) = sent(c.provision_network_holder(p, ok(404, "no such image")));
    assert!(p.stage == Stage::PullingImage);
    assert!(r.method == Method::Post);
    assert_eq!(r.path, "/images/create?fromImage=optionfactory/sloth:226");
    let (p2, r) = sent(c.provision_network_holder(p, ok(200, "pulled")));
    assert!(p2.stage == Stage::RemovingStale);
    assert_eq!(r.path, "/containers/h?force=true");
    let (p, _) = Provision::start("h", "n", "1.2.3.4");
    let (p, _) = sent(c.provision_network_holder(p, ok(404, "")));
    assert_eq!(
        failure(c.provision_network_holder(p, ok(500, "denied"))),
        "Failed to pull Docker image 'optionfactory/sloth:226': denied"
    );
}

#[test]
fn provisioning_failures() {
    let c = client();
    let (p, _) = Provision::start("h", "n", "1.2.3.4");
    assert_eq!(failure(c.provision_network_holder(p, Err("broken pipe".to_string()))), "broken pipe");
    let creating = Provision { name: "h".to_string(), net: "n".to_string(), ip: "i".to_string(), stage: Stage::Creating };
    assert_eq!(failure(c.provision_network_holder(creating, ok(409, "conflict"))), "Docker allocation failure: conflict");
    let starting = Provision { name: "h".to_string(), net: "n".to_string(), ip: "i".to_string(), stage: Stage::Starting };
    assert_eq!(failure(c.provision_network_holder(starting, ok(500, "oops"))), "Docker start failure: oops");
    let starting = Provision { name: "h".to_string(), net: "n".to_string(), ip: "i".to_string(), stage: Stage::Starting };
    assert_eq!(failure(c.provision_network_holder(starting, Err("timeout".to_string()))), "timeout");
}

#[test]
fn container_pid_decisions() {
    let c = client();
    let r = DockerClient::container_state_request("holder");
    assert!(r.method == Method::Get);
    assert_eq!(r.path, "/containers/holder/json");
    match c.get_container_pid(ok(200, "{\"State\":{\"Pid\":42}}")) {
        PidStep::ReadState(body) => assert_eq!(body, "{\"State\":{\"Pid\":42}}"),
        _ => panic!("expected the body to read"),
    }
    match c.get_container_pid(ok(404, "gone")) {
        PidStep::Done(Err(e)) => assert_eq!(e, "Docker state inspection failure: gone"),
        _ => panic!("expected a failure"),
    }
    match c.get_container_pid(Err("eof".to_string())) {
        PidStep::Done(Err(e)) => assert_eq!(e, "eof"),
        _ => panic!("expected a failure"),
    }
    assert_eq!(DockerClient::checked_pid(Ok(42)).ok(), Some(42));
    assert_eq!(
        DockerClient::checked_pid(Ok(0)).err().unwrap(),
        "Container holder is not running. Ensure the image is valid and try again."
    );
    assert!(DockerClient::checked_pid(Ok(-3)).is_err());
    assert_eq!(DockerClient::checked_pid(Err("bad json".to_string())).err().unwrap(), "bad json");
}

#[test]
fn guard_cleanup() {
    let g = ContainerGuard { name: "x1".to_string() };
    let r = g.cleanup_request();
    assert!(r.method == Method::Delete);
    assert_eq!(r.path, "/containers/x1?force=true");
    assert_eq!(Method::Post.as_str(), "POST");
    assert_eq!(Method::Delete.as_str(), "DELETE");
}
