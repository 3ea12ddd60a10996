use fleet_sizer::config::Config;
use fleet_sizer::decommission::select_victims;
use fleet_sizer::instance::{managed_fleet, Instance, Status};
use fleet_sizer::labels::LabelSet;
use fleet_sizer::plan::{reconcile, Plan};
use fleet_sizer::provision::{provision, ProvisionRequest};
use fleet_sizer::session::{start, step, Action, Event, Stage};

fn fleet_labels() -> LabelSet {
    let mut labels = LabelSet::new();
    labels.insert("fleet".to_string(), "blue".to_string());
    labels
}

fn config() -> Config {
    Config {
        prefix: "blue".to_string(),
        api_key: "not-a-real-key".to_string(),
        ssh_keys: vec!["ops".to_string()],
        image: "debian-12".to_string(),
        instance_type: "cx21".to_string(),
        zone: "nbg1".to_string(),
        cloud_init: "#!/bin/sh\necho %HHM_ID% > /etc/identity\n".to_string(),
        labels: fleet_labels(),
    }
}

fn listing(managed: usize, others: usize) -> Vec<Instance> {
    let mut all = Vec::new();
    for i in 0..(managed + others) {
        let mut labels = LabelSet::new();
        if i % 2 == 0 && i / 2 < others {
            labels.insert("fleet".to_string(), "green".to_string());
        } else {
            labels.insert("fleet".to_string(), "blue".to_string());
            labels.insert("index".to_string(), i.to_string());
        }
        all.push(Instance {
            id: 100 + i as i64,
            name: format!("instance-{}", i),
            address: None,
            status: Status::Running,
            labels,
        });
    }
    all
}

/// Runs a whole sizing against a provider that keeps its instances in a list
/// and never fails. Returns what was created and which identifiers were deleted.
fn size_fleet(desired: u16, provider: Vec<Instance>) -> (Vec<ProvisionRequest>, Vec<i64>, usize) {
    let config = config();
    let mut created = Vec::new();
    let mut deleted = Vec::new();
    let mut confirmations = 0;
    let mut victims: Vec<Instance> = Vec::new();
    let mut managed: Vec<Instance> = Vec::new();
    let mut provider = Some(provider);
    let (mut stage, mut action) = start();
    loop {
        let event = match action {
            Action::List => {
                managed = managed_fleet(provider.take().unwrap(), &config.labels);
                Event::Listed(managed.len())
            }
            Action::Confirm(plan) => {
                confirmations += 1;
                assert!(created.is_empty() && deleted.is_empty());
                if let Plan::ScaleDown(count) = plan {
                    victims = select_victims(std::mem::take(&mut managed), count);
                }
                Event::Confirmed
            }
            Action::Create => {
                created.push(provision(&config));
                Event::Completed
            }
            Action::Delete(at) => {
                deleted.push(victims[at].id);
                Event::Completed
            }
            Action::Stop => break,
        };
        let (next, then) = step(desired, stage, event);
        stage = next;
        action = then;
    }
    assert_eq!(stage, Stage::Finished);
    (created, deleted, confirmations)
}

#[test]
fn scenario_scale_up_creates_the_missing_instances() {
    let provider = listing(2, 2);
    assert_eq!(reconcile(5, managed_fleet(listing(2, 2), &fleet_labels()).len()), Plan::ScaleUp(3));
    let (created, deleted, confirmations) = size_fleet(5, provider);
    assert_eq!(confirmations, 1);
    assert!(deleted.is_empty());
    assert_eq!(created.len(), 3);
    let mut identities = Vec::new();
    for request in &created {
        let identity = request.name.strip_prefix("blue-").unwrap().to_string();
        assert_eq!(identity.len(), 8);
        assert!(identity.chars().all(|c| c.is_ascii_lowercase() || c.is_ascii_digit()));
        assert_eq!(request.spec.cloud_init, format!("#!/bin/sh\necho {} > /etc/identity\n", identity));
        assert_eq!(request.spec.labels.get("fleet"), Some(&"blue".to_string()));
        assert_eq!(request.spec.image, "debian-12");
        identities.push(identity);
    }
    assert_ne!(identities[0], identities[1]);
    assert_ne!(identities[0], identities[2]);
    assert_ne!(identities[1], identities[2]);
}

#[test]
fn scenario_scale_down_deletes_the_first_in_listing_order() {
    let provider = listing(5, 2);
    let managed = managed_fleet(listing(5, 2), &fleet_labels());
    assert_eq!(managed.len(), 5);
    assert_eq!(reconcile(2, managed.len()), Plan::ScaleDown(3));
    let expected: Vec<i64> = managed.iter().take(3).map(|instance| instance.id).collect();
    let (created, deleted, confirmations) = size_fleet(2, provider);
    assert_eq!(confirmations, 1);
    assert!(created.is_empty());
    assert_eq!(deleted, expected);
    assert_eq!(deleted, vec![101, 103, 104]);
}

#[test]
fn scenario_level_fleet_is_left_alone() {
    let provider = listing(3, 1);
    assert_eq!(reconcile(3, managed_fleet(listing(3, 1), &fleet_labels()).len()), Plan::NoOp);
    let (created, deleted, confirmations) = size_fleet(3, provider);
    assert_eq!(confirmations, 0);
    assert!(created.is_empty());
    assert!(deleted.is_empty());
}

#[test]
fn new_instances_are_managed_on_the_next_listing() {
    let config = config();
    let request = provision(&config);
    let born = Instance {
        id: 1,
        name: request.name,
        address: None,
        status: Status::Initializing,
        labels: request.spec.labels,
    };
    assert_eq!(managed_fleet(vec![born], &config.labels).len(), 1);
}
