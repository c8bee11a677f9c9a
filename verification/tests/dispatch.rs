use tsunami::error::Error;
use tsunami::providers::aws::MachineSetup;
use std::cell::RefCell;
use tsunami::providers::{
    after_launch, contains_nickname, find_duplicate, group_by_region, launch_each, merge,
    name_with_suffix, rand_name, rand_name_sep, spawn, spawn_with, LaunchDescriptor, Launcher,
};
use tsunami::{Machine, TsunamiBuilder};

type Desc = MachineSetup<()>;

fn in_region(region: &str) -> Desc {
    Desc::default().region_with_ubuntu_ami(region).unwrap()
}

fn nicknames(batch: &LaunchDescriptor<Desc>) -> Vec<String> {
    batch.machines.iter().map(|(n, _)| n.clone()).collect()
}

/// Records every batch it is asked to launch, and fails in one region.
struct Recorder {
    launched: Vec<(String, Vec<String>)>,
    attempts: usize,
    fail_in: Option<String>,
}

impl Recorder {
    fn new(fail_in: Option<&str>) -> Self {
        Recorder { launched: Vec::new(), attempts: 0, fail_in: fail_in.map(|s| s.to_string()) }
    }
}

impl Launcher for Recorder {
    type MachineDescriptor = Desc;

    fn launch(&mut self, desc: LaunchDescriptor<Desc>) -> Result<(), Error> {
        self.attempts += 1;
        if self.fail_in.as_deref() == Some(desc.region.as_str()) {
            return Err(Error::EmptyBatch);
        }
        self.launched.push((desc.region.clone(), nicknames(&desc)));
        Ok(())
    }

    fn connect_all(&self) -> Result<Vec<(String, Machine)>, Error> {
        let mut all = Vec::new();
        for (region, names) in &self.launched {
            for n in names {
                let m = Machine {
                    nickname: n.clone(),
                    public_dns: format!("{}.{}", n, region),
                    public_ip: String::new(),
                };
                all.push((n.clone(), m));
            }
        }
        Ok(all)
    }

    fn cleanup(&mut self) -> Result<(), Error> {
        self.launched.clear();
        Ok(())
    }
}

#[test]
fn groups_by_region_in_original_order() {
    let ds = vec![
        ("vm1".to_string(), in_region("us-east-1")),
        ("vm2".to_string(), in_region("us-east-1")),
        ("vm3".to_string(), in_region("us-west-2")),
    ];
    let mut batches = group_by_region(ds, Some(5000));
    batches.sort_by(|a, b| a.region.cmp(&b.region));
    assert_eq!(batches.len(), 2);
    assert_eq!(batches[0].region, "us-east-1");
    assert_eq!(nicknames(&batches[0]), vec!["vm1", "vm2"]);
    assert_eq!(batches[0].max_wait, Some(5000));
    assert_eq!(batches[1].region, "us-west-2");
    assert_eq!(nicknames(&batches[1]), vec!["vm3"]);
    assert_eq!(batches[1].max_wait, Some(5000));
}

#[test]
fn groups_interleaved_regions() {
    let ds = vec![
        ("a".to_string(), in_region("eu-west-1")),
        ("b".to_string(), in_region("us-east-1")),
        ("c".to_string(), in_region("eu-west-1")),
        ("d".to_string(), in_region("sa-east-1")),
        ("e".to_string(), in_region("us-east-1")),
        ("f".to_string(), in_region("eu-west-1")),
    ];
    let mut batches = group_by_region(ds, None);
    batches.sort_by(|a, b| a.region.cmp(&b.region));
    assert_eq!(batches.len(), 3);
    assert_eq!(batches[0].region, "eu-west-1");
    assert_eq!(nicknames(&batches[0]), vec!["a", "c", "f"]);
    assert_eq!(batches[1].region, "sa-east-1");
    assert_eq!(nicknames(&batches[1]), vec!["d"]);
    assert_eq!(batches[2].region, "us-east-1");
    assert_eq!(nicknames(&batches[2]), vec!["b", "e"]);
    assert!(batches.iter().all(|b| b.max_wait.is_none()));
}

#[test]
fn groups_nothing_into_no_batch() {
    let batches = group_by_region(Vec::<(String, Desc)>::new(), None);
    assert!(batches.is_empty());
}

#[test]
fn finds_first_repeated_nickname() {
    let ds = vec![
        ("a".to_string(), 1u8),
        ("b".to_string(), 2),
        ("c".to_string(), 3),
        ("b".to_string(), 4),
        ("a".to_string(), 5),
    ];
    assert_eq!(find_duplicate(&ds), Some(3));
    assert_eq!(find_duplicate(&ds[..3].to_vec()), None);
    assert!(contains_nickname(&ds, "c"));
    assert!(!contains_nickname(&ds, "d"));
}

#[test]
fn spawn_launches_once_per_region() {
    let mut launcher = Recorder::new(None);
    let ds = vec![
        ("vm1".to_string(), in_region("us-east-1")),
        ("vm2".to_string(), in_region("us-east-1")),
        ("vm3".to_string(), in_region("us-west-2")),
    ];
    assert!(spawn(&mut launcher, ds, None).is_ok());
    launcher.launched.sort();
    assert_eq!(
        launcher.launched,
        vec![
            ("us-east-1".to_string(), vec!["vm1".to_string(), "vm2".to_string()]),
            ("us-west-2".to_string(), vec!["vm3".to_string()]),
        ]
    );
}

#[test]
fn spawn_rejects_repeated_nickname_before_any_launch() {
    let mut launcher = Recorder::new(None);
    let ds = vec![
        ("vm1".to_string(), in_region("us-east-1")),
        ("vm2".to_string(), in_region("us-west-2")),
        ("vm1".to_string(), in_region("us-west-2")),
    ];
    match spawn(&mut launcher, ds, None) {
        Err(Error::DuplicateNickname { nickname }) => assert_eq!(nickname, "vm1"),
        other => panic!("unexpected outcome: {:?}", other),
    }
    assert_eq!(launcher.attempts, 0);
}

#[test]
fn spawn_stops_at_first_failure_without_rollback() {
    let mut launcher = Recorder::new(Some("us-west-2"));
    let ds = vec![
        ("vm1".to_string(), in_region("us-east-1")),
        ("vm2".to_string(), in_region("us-west-2")),
        ("vm3".to_string(), in_region("eu-west-1")),
    ];
    let r = spawn(&mut launcher, ds, None);
    assert!(matches!(r, Err(Error::EmptyBatch)));
    // Whatever was launched before the failure is still there, and nothing
    // was attempted after it.
    assert_eq!(launcher.attempts, launcher.launched.len() + 1);
    assert!(launcher.launched.iter().all(|(region, _)| region != "us-west-2"));
    let reachable = launcher.connect_all().unwrap();
    assert_eq!(reachable.len(), launcher.launched.len());
    assert!(reachable.iter().all(|(n, _)| n != "vm2"));
    launcher.cleanup().unwrap();
    assert!(launcher.connect_all().unwrap().is_empty());
}

#[test]
fn spawn_of_nothing_succeeds() {
    let mut launcher = Recorder::new(None);
    assert!(spawn(&mut launcher, Vec::new(), Some(1)).is_ok());
    assert_eq!(launcher.attempts, 0);
}

#[test]
fn builder_rejects_second_registration() {
    let mut tb = TsunamiBuilder::<Recorder>::default();
    assert!(tb.add("vm", in_region("us-east-1")).is_ok());
    assert!(tb.add("other", in_region("us-east-2")).is_ok());
    match tb.add("vm", in_region("us-west-2")) {
        Err(Error::DuplicateNickname { nickname }) => assert_eq!(nickname, "vm"),
        other => panic!("unexpected outcome: {:?}", other),
    }
    assert_eq!(tb.descriptors.len(), 2);
    assert_eq!(tb.descriptors[0].0, "vm");
    assert_eq!(tb.descriptors[0].1.region, "us-east-1");
    assert_eq!(tb.descriptors[1].0, "other");
}

#[test]
fn builder_timeout_and_spawn() {
    let mut tb = TsunamiBuilder::<Recorder>::default();
    assert_eq!(tb.max_wait, None);
    tb.timeout(2000);
    assert_eq!(tb.max_wait, Some(2000));
    tb.add("vm1", in_region("us-east-1")).unwrap();
    tb.add("vm2", in_region("us-east-1")).unwrap();
    let mut launcher = Recorder::new(None);
    assert!(tb.spawn(&mut launcher).is_ok());
    assert!(tb.descriptors.is_empty());
    assert_eq!(tb.max_wait, Some(2000));
    assert_eq!(
        launcher.launched,
        vec![("us-east-1".to_string(), vec!["vm1".to_string(), "vm2".to_string()])]
    );
}

#[test]
fn merge_concatenates_regions() {
    let merged = merge(vec![
        vec![("a".to_string(), 1), ("b".to_string(), 2)],
        vec![],
        vec![("c".to_string(), 3)],
    ])
    .unwrap();
    assert_eq!(merged, vec![("a".to_string(), 1), ("b".to_string(), 2), ("c".to_string(), 3)]);
}

#[test]
fn merge_fails_on_collision() {
    let r = merge(vec![
        vec![("a".to_string(), 1), ("b".to_string(), 2)],
        vec![("c".to_string(), 3), ("a".to_string(), 4)],
    ]);
    match r {
        Err(Error::DuplicateNickname { nickname }) => assert_eq!(nickname, "a"),
        other => panic!("unexpected outcome: {:?}", other),
    }
}

#[test]
fn generated_names_have_the_documented_shape() {
    assert_eq!(name_with_suffix("key", "_", "0123456789"), "tsunami_key_0123456789");
    assert_eq!(name_with_suffix("vm", "-", "abc"), "tsunami-vm-abc");
    let name = rand_name("security");
    assert!(name.starts_with("tsunami_security_"));
    let suffix = &name["tsunami_security_".len()..];
    assert_eq!(suffix.len(), 10);
    assert!(suffix.chars().all(|c| c.is_ascii_alphanumeric()));
    let name = rand_name_sep("vm", "-");
    assert!(name.starts_with("tsunami-vm-"));
    assert_eq!(name.len(), "tsunami-vm-".len() + 10);
    assert!(name["tsunami-vm-".len()..].chars().all(|c| c.is_ascii_alphanumeric()));
}

#[test]
fn generated_names_differ() {
    let names: Vec<String> = (0..20).map(|_| rand_name("key")).collect();
    for i in 0..names.len() {
        for j in 0..i {
            assert_ne!(names[i], names[j]);
        }
    }
}

#[test]
fn a_run_ends_with_the_first_failure() {
    assert!(after_launch(Ok(())).is_none());
    assert!(matches!(after_launch(Err(Error::NotInitialized)), Some(Error::NotInitialized)));
}

#[test]
fn launch_each_stops_at_the_first_failure() {
    let batches: Vec<LaunchDescriptor<Desc>> = ["us-east-1", "us-west-2", "eu-west-1"]
        .iter()
        .map(|r| LaunchDescriptor {
            region: r.to_string(),
            max_wait: None,
            machines: vec![(format!("vm-{}", r), in_region(r))],
        })
        .collect();
    let seen = RefCell::new(Vec::new());
    let r = launch_each(batches.clone(), &|b: LaunchDescriptor<Desc>| {
        seen.borrow_mut().push(b.region.clone());
        if b.region == "us-west-2" {
            Err(Error::Timeout { stage: tsunami::error::Stage::Readiness })
        } else {
            Ok(())
        }
    });
    assert!(matches!(r, Err(Error::Timeout { .. })));
    assert_eq!(*seen.borrow(), vec!["us-east-1", "us-west-2"]);

    seen.borrow_mut().clear();
    let r = launch_each(batches, &|b: LaunchDescriptor<Desc>| {
        seen.borrow_mut().push(b.region.clone());
        Ok(())
    });
    assert!(r.is_ok());
    assert_eq!(*seen.borrow(), vec!["us-east-1", "us-west-2", "eu-west-1"]);
}

#[test]
fn spawn_with_an_injected_engine() {
    let ds = vec![
        ("vm1".to_string(), in_region("us-east-1")),
        ("vm2".to_string(), in_region("us-east-1")),
        ("vm3".to_string(), in_region("us-west-2")),
    ];
    let seen = RefCell::new(Vec::new());
    let engine = |b: LaunchDescriptor<Desc>| {
        seen.borrow_mut().push((b.region.clone(), nicknames(&b), b.max_wait));
        Ok(())
    };
    assert!(spawn_with(ds.clone(), Some(2000), &engine).is_ok());
    seen.borrow_mut().sort();
    assert_eq!(
        *seen.borrow(),
        vec![
            ("us-east-1".to_string(), vec!["vm1".to_string(), "vm2".to_string()], Some(2000)),
            ("us-west-2".to_string(), vec!["vm3".to_string()], Some(2000)),
        ]
    );

    // a repeated nickname is found before the engine is asked for anything
    seen.borrow_mut().clear();
    let mut twice = ds;
    twice.push(("vm2".to_string(), in_region("eu-west-1")));
    match spawn_with(twice, None, &engine) {
        Err(Error::DuplicateNickname { nickname }) => assert_eq!(nickname, "vm2"),
        other => panic!("unexpected outcome: {:?}", other),
    }
    assert!(seen.borrow().is_empty());
}

#[test]
fn spawn_with_keeps_what_was_launched_before_a_failure() {
    let ds = vec![
        ("vm1".to_string(), in_region("us-east-1")),
        ("vm2".to_string(), in_region("us-west-2")),
        ("vm3".to_string(), in_region("eu-west-1")),
    ];
    let launched = RefCell::new(Vec::new());
    let attempts = RefCell::new(0);
    let r = spawn_with(ds, None, &|b: LaunchDescriptor<Desc>| {
        *attempts.borrow_mut() += 1;
        if b.region == "us-west-2" {
            return Err(Error::NoValidAddress);
        }
        launched.borrow_mut().push(b.region.clone());
        Ok(())
    });
    assert!(matches!(r, Err(Error::NoValidAddress)));
    assert_eq!(*attempts.borrow(), launched.borrow().len() + 1);
    assert!(launched.borrow().iter().all(|r| r != "us-west-2"));
}
