use tsunami::error::{Error, Operation};
use tsunami::providers::azure::{
    available_instances_args, create_resource_group_args, create_vm_args, created_vm,
    delete_resource_group_args, open_ports_args, AzureLauncher, AzureRegion, Descriptor, Region,
    Setup,
};
use tsunami::providers::baremetal;
use tsunami::providers::{LaunchDescriptor, MachineSetup};

const NAMES: [(Region, &str); 31] = [
    (Region::EastUs, "eastus"),
    (Region::EastUs2, "eastus2"),
    (Region::WestUs, "westus"),
    (Region::CentralUs, "centralus"),
    (Region::NorthCentralUs, "northcentralus"),
    (Region::SouthCentralUs, "southcentralus"),
    (Region::NorthEurope, "northeurope"),
    (Region::WestEurope, "westeurope"),
    (Region::EastUsia, "eastasia"),
    (Region::SouthEastUsia, "southeastasia"),
    (Region::JapanEast, "japaneast"),
    (Region::JapanWest, "japanwest"),
    (Region::AustraliaEast, "australiaeast"),
    (Region::AustraliaSoutheast, "australiasoutheast"),
    (Region::AustraliaCentral, "australiacentral"),
    (Region::BrazilSouth, "brazilsouth"),
    (Region::SouthIndia, "southindia"),
    (Region::CentralIndia, "centralindia"),
    (Region::WestIndia, "westindia"),
    (Region::CanadaCentral, "canadacentral"),
    (Region::CanadaEast, "canadaeast"),
    (Region::WestUs2, "westus2"),
    (Region::WestCentralus, "westcentralus"),
    (Region::UkSouth, "uksouth"),
    (Region::UkWest, "ukwest"),
    (Region::KoreaCentral, "koreacentral"),
    (Region::KoreaSouth, "koreasouth"),
    (Region::FranceCentral, "francecentral"),
    (Region::SouthAfricaNorth, "southafricanorth"),
    (Region::UaeNorth, "uaenorth"),
    (Region::GermanyWestCentral, "germanywestcentral"),
];

#[test]
fn region_names_round_trip() {
    for (region, name) in NAMES.iter() {
        assert_eq!(region.to_string(), *name);
        assert_eq!(Region::from_str(name).unwrap(), *region);
        assert_eq!(Region::from_str(&region.to_string()).unwrap(), *region);
    }
    assert_eq!(Region::default(), Region::EastUs);
}

#[test]
fn unknown_region_is_rejected() {
    for name in ["", "EastUs", "eastus3", "us-east-1", "eastus "] {
        match Region::from_str(name) {
            Err(Error::UnsupportedRegion { region }) => assert_eq!(region, name),
            other => panic!("unexpected outcome: {:?}", other),
        }
    }
}

#[test]
fn command_lines() {
    assert_eq!(available_instances_args(Region::UkWest), vec!["vm", "list-sizes", "-l", "ukwest"]);
    assert_eq!(
        create_resource_group_args(Region::EastUs, "test"),
        vec!["group", "create", "--name", "test", "--location", "eastus"]
    );
    assert_eq!(
        create_vm_args("rg", "vm-1", "Standard_DS1_v2", "ubuntu"),
        vec![
            "vm",
            "create",
            "--resource-group",
            "rg",
            "--name",
            "vm-1",
            "--image",
            "UbuntuLTS",
            "--size",
            "Standard_DS1_v2",
            "--admin-username",
            "ubuntu",
            "--ssh-key-value",
            "@~/.ssh/id_rsa.pub",
        ]
    );
    assert_eq!(
        open_ports_args("rg", "vm-1"),
        vec!["vm", "open-port", "--port", "0-65535", "--resource-group", "rg", "--name", "vm-1"]
    );
    assert_eq!(
        delete_resource_group_args("test"),
        vec!["group", "delete", "--name", "test", "--yes"]
    );
}

#[test]
fn created_machine_is_checked() {
    assert_eq!(created_vm("VM running", "rg", "1.2.3.4".to_string(), "rg").unwrap(), "1.2.3.4");
    match created_vm("VM stopped", "rg", "1.2.3.4".to_string(), "rg") {
        Err(Error::Provider { operation, cause }) => {
            assert_eq!(operation, Operation::CreateVm);
            assert_eq!(cause, "VM power state incorrect");
        }
        other => panic!("unexpected outcome: {:?}", other),
    }
    match created_vm("VM running", "other", "1.2.3.4".to_string(), "rg") {
        Err(Error::Provider { operation, cause }) => {
            assert_eq!(operation, Operation::CreateVm);
            assert_eq!(cause, "VM resource group incorrect");
        }
        other => panic!("unexpected outcome: {:?}", other),
    }
    match created_vm("VM stopped", "other", "1.2.3.4".to_string(), "rg") {
        Err(Error::Provider { cause, .. }) => assert_eq!(cause, "VM power state incorrect"),
        other => panic!("unexpected outcome: {:?}", other),
    }
}

#[test]
fn azure_descriptor() {
    let d = Setup::<u8>::default();
    assert_eq!(d.region, Region::EastUs);
    assert_eq!(d.instance_type, "Standard_DS1_v2");
    assert!(d.setup_fn.is_none());
    assert_eq!(MachineSetup::region(&d), "eastus");
    let d = d.region(Region::JapanWest).setup(4);
    assert_eq!(MachineSetup::region(&d), "japanwest");
    assert_eq!(d.setup_fn, Some(4));

    let sizes = vec!["Standard_A1".to_string(), "Standard_B2".to_string()];
    let d = d.instance_type("Standard_B2".to_string(), &sizes).unwrap();
    assert_eq!(d.instance_type, "Standard_B2");
    assert_eq!(d.region, Region::JapanWest);
    match d.instance_type("Standard_Z9".to_string(), &sizes) {
        Err(Error::InvalidInstanceType { instance_type }) => {
            assert_eq!(instance_type, "Standard_Z9")
        }
        other => panic!("unexpected outcome: {:?}", other.map(|d| d.instance_type)),
    }
}

#[test]
fn azure_region_context() {
    let mut ctx = AzureRegion::new("westeurope").unwrap();
    assert_eq!(ctx.region, Region::WestEurope);
    assert!(ctx.resource_group_name.starts_with("tsunami_resourcegroup_"));
    assert_eq!(ctx.resource_group_name.len(), "tsunami_resourcegroup_".len() + 10);
    assert!(ctx.machines.is_empty());
    assert!(matches!(AzureRegion::new("atlantis"), Err(Error::UnsupportedRegion { .. })));

    let desc = Setup::<u8>::default().setup(1);
    let vm = ctx.vm_launch("web", &desc);
    assert_eq!(vm.nickname, "web");
    assert!(vm.vm_name.starts_with("tsunami-vm-"));
    assert_eq!(vm.vm_name.len(), "tsunami-vm-".len() + 10);
    assert!(vm.run_setup);
    assert_eq!(
        vm.create,
        create_vm_args(&ctx.resource_group_name, &vm.vm_name, "Standard_DS1_v2", "ubuntu")
    );
    assert_eq!(vm.open_ports, open_ports_args(&ctx.resource_group_name, &vm.vm_name));
    assert!(!ctx.vm_launch("db", &Setup::<u8>::default()).run_setup);

    let first = vec![Descriptor { name: "web".to_string(), ip: "1.1.1.1".to_string() }];
    assert!(ctx.launch(Ok(first)).is_ok());
    assert!(matches!(ctx.launch(Err(Error::EmptyBatch)), Err(Error::EmptyBatch)));
    let ms = ctx.connect_all();
    assert_eq!(ms.len(), 1);
    // a second launch adds to the first
    let second = vec![
        Descriptor { name: "db".to_string(), ip: "2.2.2.2".to_string() },
        Descriptor { name: "cache".to_string(), ip: "3.3.3.3".to_string() },
    ];
    assert!(ctx.launch(Ok(second)).is_ok());
    let all: Vec<(String, String)> =
        ctx.connect_all().into_iter().map(|(n, m)| (n, m.public_ip)).collect();
    assert_eq!(
        all,
        vec![
            ("web".to_string(), "1.1.1.1".to_string()),
            ("db".to_string(), "2.2.2.2".to_string()),
            ("cache".to_string(), "3.3.3.3".to_string()),
        ]
    );
    assert!(matches!(ctx.launch(Err(Error::NoValidAddress)), Err(Error::NoValidAddress)));
    assert_eq!(ctx.machines.len(), 3);
    assert_eq!(ms[0].0, "web");
    assert_eq!(ms[0].1.nickname, "web");
    assert_eq!(ms[0].1.public_ip, "1.1.1.1");
    assert_eq!(ms[0].1.public_dns, "1.1.1.1");
    assert_eq!(ctx.cleanup(), delete_resource_group_args(&ctx.resource_group_name));
}

fn addr(ip: &str, port: u16) -> baremetal::SocketAddress {
    baremetal::SocketAddress { display: format!("{}:{}", ip, port), ip: ip.to_string() }
}

#[test]
fn addresses_are_tried_in_order() {
    let addrs = vec![addr("10.0.0.1", 22), addr("10.0.0.2", 22), addr("10.0.0.3", 2222)];
    let mut s = baremetal::Setup::<u8>::new(addrs, "me".to_string());
    assert_eq!(s.username, "me");
    assert!(s.key_path.is_none() && s.setup_fn.is_none());
    assert_eq!(MachineSetup::region(&s), "bare:10.0.0.3:2222");
    assert_eq!(baremetal::try_addrs(&mut s).unwrap().display, "10.0.0.1:22");
    assert_eq!(baremetal::try_addrs(&mut s).unwrap().display, "10.0.0.2:22");
    let last = baremetal::try_addrs(&mut s).unwrap();
    assert_eq!(last.display, "10.0.0.3:2222");
    assert_eq!(last.ip, "10.0.0.3");
    assert!(matches!(baremetal::try_addrs(&mut s), Err(Error::NoValidAddress)));
    assert!(matches!(baremetal::try_addrs(&mut s), Err(Error::NoValidAddress)));
    assert_eq!(MachineSetup::region(&s), "bare:");
}

#[test]
fn localhost_descriptor() {
    let s = baremetal::Setup::<u8>::new(vec![addr("127.0.0.1", 22)], "self".to_string())
        .key_path("/home/self/.ssh/id_rsa")
        .setup(9);
    assert_eq!(s.key_path.as_deref(), Some("/home/self/.ssh/id_rsa"));
    assert_eq!(s.setup_fn, Some(9));
    assert_eq!(MachineSetup::region(&s), "bare:127.0.0.1:22");

    let mut m = baremetal::Machine::default();
    assert!(matches!(m.connect_all(), Err(Error::NotInitialized)));
    let desc = LaunchDescriptor {
        region: String::from("localhost"),
        max_wait: None,
        machines: vec![(String::from("self"), s.clone()), (String::from("again"), s)],
    };
    let (name, mut setup) = m.launch(desc).unwrap();
    assert_eq!(name, "self");
    let found = baremetal::try_addrs(&mut setup).unwrap();
    m.record_launch(name, found, setup);
    let (nickname, target) = m.connect_all().unwrap();
    assert_eq!(nickname, "self");
    assert_eq!(target.nickname, "self");
    assert_eq!(target.public_dns, "127.0.0.1:22");
    assert_eq!(target.public_ip, "127.0.0.1");
    assert_eq!(m.username, "self");
    assert_eq!(m.key_path.as_deref(), Some("/home/self/.ssh/id_rsa"));
}

#[test]
fn zero_machines_cannot_be_launched() {
    let m = baremetal::Machine::default();
    let desc = LaunchDescriptor::<baremetal::Setup<u8>> {
        region: String::from("localhost"),
        max_wait: Some(1),
        machines: Vec::new(),
    };
    assert!(matches!(m.launch(desc), Err(Error::EmptyBatch)));
}

fn azure_up(region: &str, names: &[&str]) -> AzureRegion {
    let mut ctx = AzureRegion::new(region).unwrap();
    let ms = names
        .iter()
        .map(|n| Descriptor { name: n.to_string(), ip: format!("10.0.0.{}", n.len()) })
        .collect();
    ctx.launch(Ok(ms)).unwrap();
    ctx
}

#[test]
fn azure_launcher_keeps_regions_that_came_up() {
    let mut l = AzureLauncher::default();
    assert!(l.launch(Region::EastUs, Ok(azure_up("eastus", &["a", "bb"]))).is_ok());
    let r = l.launch(Region::WestUs, Err(Error::NoValidAddress));
    assert!(matches!(r, Err(Error::NoValidAddress)));
    assert_eq!(l.regions.len(), 1);
    l.launch(Region::UkWest, Ok(azure_up("ukwest", &["ccc"]))).unwrap();
    let names: Vec<String> = l.connect_all().unwrap().into_iter().map(|(n, _)| n).collect();
    assert_eq!(names, vec!["a", "bb", "ccc"]);

    // a second launch into a region adds to what is there
    l.launch(Region::EastUs, Ok(azure_up("eastus", &["d"]))).unwrap();
    assert_eq!(l.regions.len(), 3);
    assert_eq!(l.regions[0].1.machines.len(), 2);
    let names: Vec<String> = l.connect_all().unwrap().into_iter().map(|(n, _)| n).collect();
    assert_eq!(names, vec!["a", "bb", "ccc", "d"]);

    l.launch(Region::WestUs, Ok(azure_up("westus", &["ccc"]))).unwrap();
    match l.connect_all() {
        Err(Error::DuplicateNickname { nickname }) => assert_eq!(nickname, "ccc"),
        other => panic!("unexpected outcome: {:?}", other.map(|m| m.len())),
    }
}

#[test]
fn azure_launch_plan() {
    let ctx = AzureRegion::new("eastus").unwrap();
    let empty = LaunchDescriptor::<Setup<u8>> {
        region: "eastus".to_string(),
        max_wait: None,
        machines: Vec::new(),
    };
    assert!(matches!(ctx.launch_plan(&empty), Err(Error::EmptyBatch)));

    let sizes = vec!["Standard_B2".to_string()];
    let batch = LaunchDescriptor {
        region: "eastus".to_string(),
        max_wait: Some(10),
        machines: vec![
            ("web".to_string(), Setup::<u8>::default().setup(1)),
            (
                "db".to_string(),
                Setup::<u8>::default().instance_type("Standard_B2".to_string(), &sizes).unwrap(),
            ),
        ],
    };
    let plan = ctx.launch_plan(&batch).unwrap();
    assert_eq!(plan.len(), 2);
    assert_eq!(plan[0].nickname, "web");
    assert!(plan[0].run_setup);
    assert_eq!(plan[1].nickname, "db");
    assert!(!plan[1].run_setup);
    assert_ne!(plan[0].vm_name, plan[1].vm_name);
    for (vm, size) in plan.iter().zip(["Standard_DS1_v2", "Standard_B2"]) {
        assert!(vm.vm_name.starts_with("tsunami-vm-"));
        assert_eq!(vm.create, create_vm_args(&ctx.resource_group_name, &vm.vm_name, size, "ubuntu"));
        assert_eq!(vm.open_ports, open_ports_args(&ctx.resource_group_name, &vm.vm_name));
    }
}
