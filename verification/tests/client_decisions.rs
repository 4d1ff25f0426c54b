use tfgrid_sdk_rust::json::{parse_json_text as parse_json, JsonValue};
use tfgrid_sdk_rust::live::client::{
    contracts_to_cancel, used_wg_ports,
    changes_step, changes_timeout, confirm_step, deploy_already_exists, deployment_metadata,
    derived_names, existing_network_request, extract_ip_value, first_free_port, full_network_ip_range,
    full_network_name, full_network_subnet, full_vm_name, get_step, is_retryable,
    light_network_name, light_network_subnet, not_visible, plan_network, plan_network_light,
    plan_vm, resolve_public_ips_from_workloads, small_vm_request, vm_outcome, workloads_settled,
    ConfirmStep, Placement, PollStep,
};
use tfgrid_sdk_rust::live::challenge::{attach_signature, deployment_hash_hex};
use tfgrid_sdk_rust::live::payload::extract_workloads;
use tfgrid_sdk_rust::live::rmb::{
    envelope_challenge, random_uid, relay_host, request_envelope, response_step,
    set_envelope_signature, RequestParts, ResponseStep, RmbAddress, RmbEnvelope, RmbError, Message, Payload,
    RmbRequest,
};
use tfgrid_sdk_rust::zos::Workload;
use tfgrid_sdk_rust::{
    FullNetworkSpec, GridError, NetworkLightSpec, NetworkTarget, NodePlacement, VmDeployment,
    VmLightDeployment, VmLightSpec, VmSpec,
};

fn json(text: &str) -> JsonValue {
    parse_json(text).expect("valid json")
}

fn workload(name: &str, state: &str) -> String {
    format!(
        r#"{{"version": 0, "name": "{name}", "type": "zmachine", "data": {{}}, "metadata": "", "description": "", "result": {{"state": "{state}"}}}}"#
    )
}

fn workloads(items: &[(&str, &str)]) -> Vec<Workload> {
    let body: Vec<String> = items.iter().map(|(n, s)| workload(n, s)).collect();
    extract_workloads(json(&format!("[{}]", body.join(",")))).expect("workloads")
}

#[test]
fn settled_workloads_need_a_terminal_state_or_one_ok_name() {
    assert!(workloads_settled(&workloads(&[("vm", "init"), ("vm", "error")])));
    assert!(workloads_settled(&workloads(&[("vm", "init"), ("vm", "ok")])));
    assert!(workloads_settled(&workloads(&[("vm", "ok"), ("vm", "ok")])));
    assert!(!workloads_settled(&workloads(&[("vm", "ok"), ("disk", "ok")])));
    assert!(!workloads_settled(&workloads(&[("vm", "init")])));
    assert!(!workloads_settled(&Vec::new()));
}

#[test]
fn retryable_messages_name_missing_deployments_or_the_command() {
    assert!(is_retryable("backend: deployment not found", "zos.deployment.get"));
    assert!(is_retryable("contract not found", "zos.deployment.changes"));
    assert!(is_retryable("relay closed before zos.deployment.get response", "zos.deployment.get"));
    assert!(!is_retryable("relay closed before zos.deployment.get response", "zos.deployment.changes"));
    assert!(is_retryable("rmb timeout for zos.deployment.changes", "zos.deployment.changes"));
    assert!(!is_retryable("permission denied", "zos.deployment.get"));
}

#[test]
fn changes_step_covers_every_answer() {
    let settled = json(&format!("[{}]", workload("vm", "ok")));
    assert!(matches!(changes_step(Ok(settled)), PollStep::Done(ws) if ws.len() == 1));
    assert!(matches!(changes_step(Ok(json("[]"))), PollStep::Fetch));
    let pending = json(&format!("[{}]", workload("vm", "init")));
    assert!(matches!(changes_step(Ok(pending)), PollStep::Wait));
    assert!(matches!(changes_step(Ok(json(r#"[{"name": "vm"}]"#))), PollStep::Fail(GridError::Codec(_))));
    let retry = Err(GridError::Backend("rmb timeout for zos.deployment.changes".to_string()));
    assert!(matches!(changes_step(retry), PollStep::Fetch));
    let fatal = Err(GridError::Backend("boom".to_string()));
    assert!(matches!(changes_step(fatal), PollStep::Fail(GridError::Backend(m)) if m == "boom"));
    assert!(matches!(changes_step(Err(GridError::ContractDeleted)), PollStep::Fail(GridError::ContractDeleted)));
}

#[test]
fn get_step_times_out_only_on_retryable_errors() {
    let missing = || Err(GridError::Backend("deployment not found".to_string()));
    assert!(matches!(get_step(missing(), false, 9), Ok(None)));
    match get_step(missing(), true, 9) {
        Err(GridError::Backend(m)) => assert_eq!(m, "timed out waiting for deployment get for contract 9"),
        other => panic!("unexpected: {other:?}"),
    }
    let settled = json(&format!(r#"{{"workloads": [{}]}}"#, workload("vm", "deleted")));
    assert!(matches!(get_step(Ok(settled), true, 9), Ok(Some(ws)) if ws.len() == 1));
    assert_eq!(changes_timeout(12).message(), "backend error: timed out waiting for deployment changes for contract 12");
}

#[test]
fn confirm_step_and_deploy_answers() {
    assert!(matches!(confirm_step(Ok(JsonValue::Null)), ConfirmStep::Visible));
    let retry = Err(GridError::Backend("relay closed before zos.deployment.get response".to_string()));
    assert!(matches!(confirm_step(retry), ConfirmStep::Retry));
    assert!(matches!(confirm_step(Err(GridError::Codec("x".to_string()))), ConfirmStep::Fail(GridError::Codec(_))));
    assert!(deploy_already_exists(&Err(GridError::Backend("deployment exists".to_string()))));
    assert!(!deploy_already_exists(&Ok(())));
    assert!(!deploy_already_exists(&Err(GridError::Validation("exists".to_string()))));
    assert_eq!(not_visible(42).message(), "backend error: deployment 42 did not appear on node");
}

#[test]
fn first_free_port_skips_used_ports() {
    assert_eq!(first_free_port(&Vec::new()).expect("port"), 1024);
    assert_eq!(first_free_port(&vec![1025, 1024, 1027]).expect("port"), 1026);
}

#[test]
fn first_free_port_fails_when_all_ports_are_used() {
    let all: Vec<u16> = (1024u16..32767u16).collect();
    let err = first_free_port(&all).expect_err("no port");
    assert_eq!(err.message(), "backend error: no free wireguard port found");
}

#[test]
fn default_names_and_addresses_use_the_suffix() {
    let request = VmLightDeployment::builder().build();
    assert_eq!(derived_names(&request, 77).vm_name, "rust_vm_light_77");
    let named = VmLightDeployment::builder().vm(VmLightSpec::builder().name("mine").build()).build();
    assert_eq!(derived_names(&named, 77).vm_name, "mine");

    let light = NetworkLightSpec::default();
    assert_eq!(light_network_name(&light, 5), "rust_net_light_5");
    assert_eq!(light_network_subnet(&light, 5), "10.15.2.0/24");
    assert_eq!(light_network_subnet(&light, 185), "10.15.2.0/24");
    assert_eq!(light_network_subnet(&light, 179), "10.189.2.0/24");

    let full = FullNetworkSpec::default();
    assert_eq!(full_network_name(&full, 3), "rust_net_3");
    assert_eq!(full_network_ip_range(&full, 3), "10.13.0.0/16");
    assert_eq!(full_network_subnet(&full, 3), "10.13.2.0/24");
    assert_eq!(full_vm_name(&VmDeployment::builder().build(), 3), "rust_vm_3");
}

#[test]
fn deployment_metadata_is_compact_json() {
    assert_eq!(
        deployment_metadata("vm1", "vm-light", "vm1"),
        r#"{"version":4,"type":"vm-light","name":"vm1","projectName":"vm1"}"#
    );
    assert_eq!(
        deployment_metadata("a\"b", "network", "Network"),
        r#"{"version":4,"type":"network","name":"a\"b","projectName":"Network"}"#
    );
}

#[test]
fn public_ips_come_from_the_running_ip_workload() {
    let ws = extract_workloads(json(
        r#"[{"version": 0, "name": "vmip", "type": "ip", "data": {}, "metadata": "", "description": "",
             "result": {"state": "ok", "created": 1, "error": "", "data": {"ip": "203.0.113.5/32", "ip6": {"ip": "2001:db8::2/128"}}}}]"#,
    ))
    .expect("workloads");
    let (v4, v6) = resolve_public_ips_from_workloads(&ws, "vm");
    assert_eq!(v4, "203.0.113.5/32");
    assert_eq!(v6, "2001:db8::2/128");
    let (none4, none6) = resolve_public_ips_from_workloads(&ws, "other");
    assert!(none4.is_empty() && none6.is_empty());

    assert_eq!(extract_ip_value(Some(&json(r#""""#))), None);
    assert_eq!(extract_ip_value(Some(&json(r#"{"ip": ""}"#))), Some(String::new()));
    assert_eq!(extract_ip_value(None), None);
}

fn placement(vm_name: &str) -> Placement {
    Placement {
        node_id: 1,
        node_twin_id: 2,
        network_name: "net".to_string(),
        network_contract_id: 3,
        vm_name: vm_name.to_string(),
        vm_contract_id: 4,
        vm_ip: "10.1.2.5".to_string(),
    }
}

#[test]
fn vm_outcome_reports_runtime_fields_or_the_failure() {
    let state = json(
        r#"{"workloads": [{"version": 0, "name": "vm", "type": "zmachine-light", "data": {}, "metadata": "", "description": "",
            "result": {"state": "ok", "data": {"mycelium_ip": "5a0::1", "console_url": "http://c"}}}]}"#,
    );
    let outcome = vm_outcome(placement("vm"), state, &Vec::new(), false).expect("outcome");
    assert_eq!(outcome.mycelium_ip, "5a0::1");
    assert_eq!(outcome.console_url, "http://c");
    assert_eq!(outcome.vm_contract_id, 4);
    assert_eq!(outcome.network_contract_id, 3);
    assert!(outcome.public_ipv4.is_empty());

    let missing = vm_outcome(placement("other"), json(r#"{"workloads": []}"#), &Vec::new(), true).expect_err("missing");
    assert_eq!(missing.message(), "not found: vm workload other");

    let failed_changes = workloads(&[("vm", "error")]);
    let state = json(&format!(r#"{{"workloads": [{}]}}"#, workload("vm", "error")));
    let failed = vm_outcome(placement("vm"), state, &failed_changes, true).expect_err("error state");
    assert_eq!(failed.message(), "backend error: vm deployment entered error state");
}

#[test]
fn network_plans_validate_the_subnet_and_name_the_network() {
    let plan = plan_network_light(&NetworkLightSpec::default(), 5, vec![7; 32], 99).expect("plan");
    assert_eq!(plan.name, "rust_net_light_5");
    assert_eq!(plan.vm_ip, "10.15.2.5");
    assert_eq!(plan.deployment.twin_id, 99);
    assert_eq!(plan.deployment.metadata, r#"{"version":4,"type":"network-light","name":"rust_net_light_5","projectName":"Network"}"#);
    assert_eq!(plan.deployment.workloads.len(), 1);

    let bad = NetworkLightSpec::builder().subnet("10.1.2").build();
    let err = plan_network_light(&bad, 5, vec![7; 32], 99).expect_err("bad subnet");
    assert!(matches!(err, GridError::Validation(_)));

    let full = FullNetworkSpec::builder().name("n").wireguard_listen_port(5000).build();
    let plan = plan_network(&full, 3, 1024, "key".to_string(), 7).expect("plan");
    assert_eq!(plan.name, "n");
    assert_eq!(plan.vm_ip, "10.13.2.5");
    let data = &plan.deployment.workloads[0].data;
    assert_eq!(data.get("wireguard_listen_port").and_then(|v| v.as_u64()), Some(5000));

    let vm = plan_vm(&VmDeployment::builder().vm(VmSpec::builder().public_ipv4(true).build()).build(), "v", "n", "10.13.2.5", 7);
    assert_eq!(vm.metadata, r#"{"version":4,"type":"vm","name":"v","projectName":"v"}"#);
    assert_eq!(vm.workloads.len(), 2);
}

#[test]
fn quick_requests_trim_the_ssh_key() {
    let request = small_vm_request(Some("  ssh-ed25519 key  "));
    assert_eq!(request.vm.env.get("SSH_KEY").map(String::as_str), Some("ssh-ed25519 key"));
    assert!(matches!(request.network, NetworkTarget::Create(_)));
    assert!(matches!(request.placement, NodePlacement::Auto(_)));
    let blank = small_vm_request(Some("   "));
    assert!(blank.vm.env.get("SSH_KEY").is_none());

    let joined = existing_network_request(3, 4, "net", "10.0.0.5", None);
    assert!(matches!(joined.placement, NodePlacement::Fixed { node_id: 3, node_twin_id: 4 }));
    match joined.network {
        NetworkTarget::Existing(e) => assert_eq!((e.name.as_str(), e.ip.as_str()), ("net", "10.0.0.5")),
        other => panic!("unexpected network target: {other:?}"),
    }
}

fn bare_envelope(uid: &str) -> RmbEnvelope {
    RmbEnvelope {
        uid: uid.to_string(),
        tags: None,
        timestamp: 1,
        expiration: 2,
        source: None,
        destination: None,
        message: None,
        signature: None,
        schema: None,
        federation: None,
        payload: None,
        relays: Vec::new(),
    }
}

#[test]
fn envelope_challenge_is_md5_of_the_envelope_fields() {
    let digest = envelope_challenge(&bare_envelope("u")).expect("challenge");
    assert_eq!(digest, vec![226, 219, 160, 100, 144, 79, 124, 109, 141, 41, 132, 188, 114, 46, 188, 155]);

    let request = request_envelope(RequestParts {
        uid: "uid-1".to_string(),
        now: 100,
        ttl: 60,
        own_twin: 11,
        session_id: "conn7".to_string(),
        destination_twin: 22,
        destination_session: Some("conn-b".to_string()),
        command: "zos.deployment.get".to_string(),
        federation: Some("fed".to_string()),
        body: b"payload".to_vec(),
        relays: vec!["relay.a".to_string(), "relay.b".to_string()],
    });
    let tagged = RmbEnvelope { tags: Some("tag".to_string()), ..request };
    assert_eq!(
        envelope_challenge(&tagged).expect("challenge"),
        vec![134, 129, 83, 164, 41, 209, 89, 137, 201, 120, 56, 211, 60, 91, 61, 194]
    );

    let error = RmbEnvelope {
        message: Some(Message::Error(RmbError { code: 404, message: "not here".to_string() })),
        expiration: 25,
        ..bare_envelope("u")
    };
    assert_eq!(
        envelope_challenge(&error).expect("challenge"),
        vec![201, 38, 135, 19, 37, 23, 84, 149, 59, 134, 57, 215, 244, 220, 19, 38]
    );
}

#[test]
fn envelope_signature_is_typed() {
    let mut envelope = bare_envelope("u");
    set_envelope_signature(&mut envelope, &[1, 2, 3]);
    assert_eq!(envelope.signature, Some(vec![b's', 1, 2, 3]));
}

#[test]
fn responses_are_matched_by_uid() {
    let answer = |payload| RmbEnvelope {
        payload,
        source: Some(RmbAddress { twin: 5, connection: None }),
        message: Some(Message::Response(tfgrid_sdk_rust::live::rmb::RmbResponse {})),
        ..bare_envelope("u")
    };
    assert!(matches!(response_step(answer(None), "other", 9, false), ResponseStep::Skip));
    assert!(matches!(response_step(answer(None), "u", 9, false), ResponseStep::Missing));
    assert!(matches!(
        response_step(answer(None), "u", 9, true),
        ResponseStep::Fail(GridError::Backend(m)) if m == "rmb response missing payload"
    ));
    assert!(matches!(response_step(answer(Some(Payload::Plain(vec![1]))), "u", 9, false), ResponseStep::Plain(b) if b == vec![1]));
    assert!(matches!(
        response_step(answer(Some(Payload::Cipher(vec![2]))), "u", 9, false),
        ResponseStep::Cipher { source_twin: 5, bytes } if bytes == vec![2]
    ));
    let failed = RmbEnvelope {
        message: Some(Message::Error(RmbError { code: 1, message: "nope".to_string() })),
        ..bare_envelope("u")
    };
    assert!(matches!(response_step(failed, "u", 9, false), ResponseStep::Fail(GridError::Backend(m)) if m == "nope"));
    let request = RmbEnvelope {
        message: Some(Message::Request(RmbRequest { command: "c".to_string() })),
        payload: Some(Payload::Cipher(vec![3])),
        ..bare_envelope("u")
    };
    assert!(matches!(response_step(request, "u", 9, false), ResponseStep::Cipher { source_twin: 9, .. }));
}

#[test]
fn relay_host_reads_the_url_host() {
    assert_eq!(relay_host("wss://relay.dev.grid.tf").expect("host"), "relay.dev.grid.tf");
    assert_eq!(relay_host("wss://relay.example.test:443/path").expect("host"), "relay.example.test");
    let err = relay_host("not a url").expect_err("invalid");
    assert_eq!(err.message(), "invalid input: invalid relay url not a url");
}

#[test]
fn used_wg_ports_must_be_a_list_of_ports() {
    assert_eq!(used_wg_ports(&json("[1024, 51820]")).expect("ports"), vec![1024, 51820]);
    assert!(matches!(used_wg_ports(&json("[70000]")), Err(GridError::Codec(_))));
    assert!(matches!(used_wg_ports(&json("null")), Err(GridError::Codec(_))));
}

#[test]
fn outcomes_cancel_the_vm_contract_before_the_network() {
    let outcome = |vm: u64, net: u64| tfgrid_sdk_rust::DeploymentOutcome {
        node_id: 1,
        node_twin_id: 2,
        network_name: String::new(),
        network_contract_id: net,
        vm_name: String::new(),
        vm_contract_id: vm,
        vm_ip: String::new(),
        mycelium_ip: String::new(),
        public_ipv4: String::new(),
        public_ipv6: String::new(),
        console_url: String::new(),
    };
    assert_eq!(contracts_to_cancel(&outcome(5, 3)), vec![5, 3]);
    assert_eq!(contracts_to_cancel(&outcome(5, 0)), vec![5]);
    assert_eq!(contracts_to_cancel(&outcome(0, 3)), vec![3]);
    assert!(contracts_to_cancel(&outcome(0, 0)).is_empty());
}

#[test]
fn signing_and_contract_assignment_keep_the_deployment_hash() {
    let mut d = plan_vm(&VmDeployment::builder().build(), "v", "n", "10.1.2.5", 7);
    let before = deployment_hash_hex(&d).expect("hash");
    assert_eq!(before.len(), 32);
    attach_signature(&mut d, 7, &[1, 2, 3]);
    d.contract_id = 99;
    assert_eq!(deployment_hash_hex(&d).expect("hash"), before);
    assert_eq!(d.signature_requirement.signatures[0].signature, "010203");
}

#[test]
fn request_ids_are_thirty_two_hex_digits() {
    let a = random_uid();
    let b = random_uid();
    assert_eq!(a.len(), 32);
    assert!(a.chars().all(|c| c.is_ascii_digit() || ('a'..='f').contains(&c)));
    assert_ne!(a, b);
}
