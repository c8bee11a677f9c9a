//! Spot instances on AWS EC2: descriptors, the launcher, and the decisions of
//! one region's provisioning run.
use crate::error::{Error, Operation, Stage};
use crate::providers::{into_group_map, is_grouping, rand_name, values_with_key, GroupKey};
use crate::text::{contains, same};
use crate::Machine;
use itertools::Itertools;
use vstd::prelude::*;
use vstd::string::*;

verus! {

/// Marks a [`MachineSetup`] whose image has been cleared by a change of region.
#[derive(Clone, Copy, Debug)]
pub struct NoAmi;

/// Marks a [`MachineSetup`] that carries an image.
#[derive(Clone, Copy, Debug)]
pub struct YesAmi;

/// The Ubuntu 18.04 LTS image of each region that has one, by region name.
pub open spec fn ubuntu_ami_of(region: Seq<char>) -> Option<Seq<char>> {
    if region == "ap-east-1"@ {
        Some("ami-e0ff8491"@)
    } else if region == "ap-northeast-1"@ {
        Some("ami-0cb1c8cab7f5249b6"@)
    } else if region == "ap-northeast-2"@ {
        Some("ami-081626bfb3fbc9f49"@)
    } else if region == "ap-south-1"@ {
        Some("ami-0cf8402efdb171312"@)
    } else if region == "ap-southeast-1"@ {
        Some("ami-099d318f80eab7e94"@)
    } else if region == "ap-southeast-2"@ {
        Some("ami-08a648fb5cc86fb74"@)
    } else if region == "ca-central-1"@ {
        Some("ami-0bc1dd4eb012a451e"@)
    } else if region == "eu-central-1"@ {
        Some("ami-0cdab515472ca0bac"@)
    } else if region == "eu-north-1"@ {
        Some("ami-c37bf0bd"@)
    } else if region == "eu-west-1"@ {
        Some("ami-01cca82393e531118"@)
    } else if region == "eu-west-2"@ {
        Some("ami-0a7c91b6616d113b1"@)
    } else if region == "eu-west-3"@ {
        Some("ami-033e0056c336ecff0"@)
    } else if region == "sa-east-1"@ {
        Some("ami-094c359b4d8c6a8ca"@)
    } else if region == "us-east-1"@ {
        Some("ami-064a0193585662d74"@)
    } else if region == "us-east-2"@ {
        Some("ami-021b7b04f1ac696c2"@)
    } else if region == "us-west-1"@ {
        Some("ami-056d04da775d124d7"@)
    } else if region == "us-west-2"@ {
        Some("ami-09a3d8a7177216dcf"@)
    } else {
        None
    }
}

/// Looks up the Ubuntu image of a region. A region without one is a
/// configuration error.
pub fn ubuntu_ami(region: &str) -> (r: Result<String, Error>)
    ensures
        match ubuntu_ami_of(region@) {
            Some(ami) => r matches Ok(found) && found@ == ami,
            None => r matches Err(Error::UnsupportedRegion { region: named }) && named@ == region@,
        },
{
    let ami = if same(region, "ap-east-1") {
        "ami-e0ff8491"
    } else if same(region, "ap-northeast-1") {
        "ami-0cb1c8cab7f5249b6"
    } else if same(region, "ap-northeast-2") {
        "ami-081626bfb3fbc9f49"
    } else if same(region, "ap-south-1") {
        "ami-0cf8402efdb171312"
    } else if same(region, "ap-southeast-1") {
        "ami-099d318f80eab7e94"
    } else if same(region, "ap-southeast-2") {
        "ami-08a648fb5cc86fb74"
    } else if same(region, "ca-central-1") {
        "ami-0bc1dd4eb012a451e"
    } else if same(region, "eu-central-1") {
        "ami-0cdab515472ca0bac"
    } else if same(region, "eu-north-1") {
        "ami-c37bf0bd"
    } else if same(region, "eu-west-1") {
        "ami-01cca82393e531118"
    } else if same(region, "eu-west-2") {
        "ami-0a7c91b6616d113b1"
    } else if same(region, "eu-west-3") {
        "ami-033e0056c336ecff0"
    } else if same(region, "sa-east-1") {
        "ami-094c359b4d8c6a8ca"
    } else if same(region, "us-east-1") {
        "ami-064a0193585662d74"
    } else if same(region, "us-east-2") {
        "ami-021b7b04f1ac696c2"
    } else if same(region, "us-west-1") {
        "ami-056d04da775d124d7"
    } else if same(region, "us-west-2") {
        "ami-09a3d8a7177216dcf"
    } else {
        return Err(Error::UnsupportedRegion { region: String::from_str(region) });
    };
    Ok(String::from_str(ami))
}

/// A descriptor for a particular machine setup. `S` is the setup procedure
/// that runs on each machine once it is reachable; this crate stores it and
/// tells the caller when to run it.
#[derive(Debug, Clone)]
pub struct MachineSetup<S, HasAmi = YesAmi> {
    /// The name of the region, such as `us-east-1`.
    pub region: String,
    /// The instance size.
    pub instance_type: String,
    /// The image that the instance starts from.
    pub ami: Option<String>,
    /// The setup procedure, if any.
    pub setup: Option<S>,
    /// Whether an image has been set.
    pub marker: HasAmi,
}

impl<S> super::MachineSetup for MachineSetup<S, YesAmi> {
    open spec fn region_key(&self) -> Seq<char> {
        self.region@
    }

    fn region(&self) -> (r: String) {
        self.region.clone()
    }
}

impl<S> Default for MachineSetup<S, YesAmi> {
    /// A `t3.small` in `us-east-1` with the Ubuntu image and no setup.
    fn default() -> (m: Self)
        ensures
            m.region@ == "us-east-1"@,
            m.instance_type@ == "t3.small"@,
            m.ami matches Some(ami) && ami@ == "ami-064a0193585662d74"@,
            m.setup is None,
    {
        MachineSetup {
            region: String::from_str("us-east-1"),
            instance_type: String::from_str("t3.small"),
            ami: Some(String::from_str("ami-064a0193585662d74")),
            setup: None,
            marker: YesAmi,
        }
    }
}

impl<S, A> MachineSetup<S, A> {
    /// Moves the machine to `region` and sets the image to the Ubuntu image
    /// of that region. A region without such an image is a configuration
    /// error.
    pub fn region_with_ubuntu_ami(self, region: &str) -> (r: Result<MachineSetup<S, YesAmi>, Error>)
        ensures
            match ubuntu_ami_of(region@) {
                Some(ami) => r matches Ok(m) && m.region@ == region@ && m.instance_type
                    == self.instance_type && m.setup == self.setup && (m.ami matches Some(a) && a@
                    == ami),
                None => r matches Err(Error::UnsupportedRegion { region: named }) && named@
                    == region@,
            },
    {
        let ami = ubuntu_ami(region)?;
        Ok(
            MachineSetup {
                region: String::from_str(region),
                instance_type: self.instance_type,
                ami: Some(ami),
                setup: self.setup,
                marker: YesAmi,
            },
        )
    }

    /// Sets the image that new instances start from.
    pub fn ami(self, ami: &str) -> (m: MachineSetup<S, YesAmi>)
        ensures
            m.region == self.region,
            m.instance_type == self.instance_type,
            m.setup == self.setup,
            m.ami matches Some(a) && a@ == ami@,
    {
        MachineSetup {
            region: self.region,
            instance_type: self.instance_type,
            ami: Some(String::from_str(ami)),
            setup: self.setup,
            marker: YesAmi,
        }
    }

    /// Sets the instance size.
    pub fn instance_type(self, typ: &str) -> (m: Self)
        ensures
            m.instance_type@ == typ@,
            m.region == self.region,
            m.ami == self.ami,
            m.setup == self.setup,
            m.marker == self.marker,
    {
        let mut m = self;
        m.instance_type = String::from_str(typ);
        m
    }

    /// Sets the procedure that is run once on every spawned instance of this
    /// descriptor.
    pub fn setup(self, setup: S) -> (m: Self)
        ensures
            m.setup == Some(setup),
            m.region == self.region,
            m.instance_type == self.instance_type,
            m.ami == self.ami,
            m.marker == self.marker,
    {
        let mut m = self;
        m.setup = Some(setup);
        m
    }
}

impl<S> MachineSetup<S, YesAmi> {
    /// Moves the machine to `region`. Images belong to a region, so this
    /// clears the image, which must be set again before the descriptor is of
    /// use.
    pub fn region(self, region: &str) -> (m: MachineSetup<S, NoAmi>)
        ensures
            m.region@ == region@,
            m.instance_type == self.instance_type,
            m.setup == self.setup,
            m.ami is None,
    {
        MachineSetup {
            region: String::from_str(region),
            instance_type: self.instance_type,
            ami: None,
            setup: self.setup,
            marker: NoAmi,
        }
    }
}

/// The canonical name of the region that `rusoto_core::Region::from_str`
/// accepts `s` as, if it accepts it.
pub uninterp spec fn parsed_region_name(s: Seq<char>) -> Option<Seq<char>>;

/// Parses a region name with `rusoto_core::Region::from_str` and hands back
/// the `name()` of the region, or nothing where the parser rejects the input.
/// Nothing is proved of the parser: its answer is only given a name, which
/// says that it depends on the input alone.
#[verifier::external_body]
fn parse_region(s: &str) -> (name: Option<String>)
    ensures
        match parsed_region_name(s@) {
            Some(n) => name matches Some(got) && got@ == n,
            None => name is None,
        },
{
    match s.parse::<rusoto_core::Region>() {
        Ok(region) => Some(region.name().to_string()),
        Err(_) => None,
    }
}

/// Pairs two lists position by position with `Itertools::zip_eq`. The
/// contract is read off the source of itertools, not proved. `zip_eq` panics
/// where the lengths differ, so equal lengths are required.
#[verifier::external_body]
fn zip_eq<A, B>(a: Vec<A>, b: Vec<B>) -> (z: Vec<(A, B)>)
    requires
        a@.len() == b@.len(),
    ensures
        z@.len() == a@.len(),
        forall|i: int| 0 <= i < z@.len() ==> #[trigger] z@[i] == (a@[i], b@[i]),
{
    a.into_iter().zip_eq(b.into_iter()).collect()
}

/// One inbound rule of the temporary security group.
#[derive(Debug, Clone)]
pub struct IngressRule {
    pub ip_protocol: String,
    pub from_port: i64,
    pub to_port: i64,
    pub cidr_ip: String,
}

/// What to create as the temporary security group of a region.
#[derive(Debug, Clone)]
pub struct SecurityGroupRequest {
    pub group_name: String,
    pub description: String,
    pub rules: Vec<IngressRule>,
}

/// A one-time capacity request for a number of identical instances.
#[derive(Debug, Clone)]
pub struct SpotRequest {
    pub image_id: String,
    pub instance_type: String,
    pub instance_count: usize,
    pub block_duration_minutes: i64,
    pub security_group_id: String,
    pub key_name: String,
}

/// A capacity request together with the machines it is made for, in the
/// order in which the provider's request identifiers are matched to them.
#[derive(Debug, Clone)]
pub struct SpotBatch<S> {
    pub request: SpotRequest,
    pub machines: Vec<(String, MachineSetup<S>)>,
}

/// A capacity request that the provider has not resolved yet.
#[derive(Debug, Clone)]
pub struct PendingRequest<S> {
    pub request_id: String,
    pub nickname: String,
    pub setup: MachineSetup<S>,
}

/// An instance that a capacity request was fulfilled with. `address` holds
/// the public IP address and the public DNS name once the instance is
/// reachable.
#[derive(Debug, Clone)]
pub struct InstanceRecord<S> {
    pub instance_id: String,
    pub address: Option<(String, String)>,
    pub nickname: String,
    pub setup: MachineSetup<S>,
}

/// Everything that one region's provisioning run has allocated.
///
/// Spot instances are requested with a defined duration, so they are never
/// terminated early; the duration comes from
/// [`AWSLauncher::set_max_instance_duration`].
#[derive(Debug, Clone)]
pub struct AWSRegion<S> {
    /// The canonical name of the region.
    pub region: String,
    /// The identifier of the temporary security group; empty until made.
    pub security_group_id: String,
    /// The name of the temporary key pair; empty until made.
    pub ssh_key_name: String,
    /// The capacity requests that are still outstanding.
    pub outstanding_spot_request_ids: Vec<PendingRequest<S>>,
    /// The instances that requests were fulfilled with.
    pub instances: Vec<InstanceRecord<S>>,
}

/// No two outstanding requests have the same identifier.
pub open spec fn distinct_requests<S>(pending: Seq<PendingRequest<S>>) -> bool {
    forall|i: int, j: int|
        0 <= i < j < pending.len() ==> pending[i].request_id@ != pending[j].request_id@
}

/// No two records are for the same instance.
pub open spec fn distinct_instances<S>(instances: Seq<InstanceRecord<S>>) -> bool {
    forall|i: int, j: int|
        0 <= i < j < instances.len() ==> instances[i].instance_id@ != instances[j].instance_id@
}

/// The identifiers `ids` are new to `pending`: no two of them are the same,
/// and none belongs to an outstanding request.
pub open spec fn fresh_requests<S>(ids: Seq<String>, pending: Seq<PendingRequest<S>>) -> bool {
    &&& forall|i: int, j: int| 0 <= i < j < ids.len() ==> ids[i]@ != ids[j]@
    &&& forall|i: int, p: int|
        0 <= i < ids.len() && 0 <= p < pending.len() ==> ids[i]@ != pending[p].request_id@
}

/// What a machine is batched by: its image and its instance size.
pub open spec fn batch_key<S>(m: MachineSetup<S>) -> Seq<Seq<char>> {
    seq![
        match m.ami {
            Some(ami) => ami@,
            None => Seq::empty(),
        },
        m.instance_type@,
    ]
}

/// The machines of `ms` with the batch key `key`, in their order in `ms`.
pub open spec fn machines_with_key<S>(ms: Seq<(String, MachineSetup<S>)>, key: Seq<Seq<char>>) -> Seq<
    (String, MachineSetup<S>),
>
    decreases ms.len(),
{
    if ms.len() == 0 {
        Seq::empty()
    } else {
        let rest = machines_with_key(ms.drop_last(), key);
        if batch_key(ms.last().1) == key {
            rest.push(ms.last())
        } else {
            rest
        }
    }
}

/// The batch key of the request of `b`.
pub open spec fn request_key<S>(b: SpotBatch<S>) -> Seq<Seq<char>> {
    seq![b.request.image_id@, b.request.instance_type@]
}

/// Some batch of `batches` asks for the image and size `key`.
pub open spec fn has_batch<S>(batches: Seq<SpotBatch<S>>, key: Seq<Seq<char>>) -> bool {
    exists|b: int| 0 <= b < batches.len() && request_key(#[trigger] batches[b]) == key
}

/// `batches` batches `ms` by image and instance size: one request per
/// combination that occurs, sized to the number of machines that share it and
/// holding exactly those machines in the order in which they were given.
pub open spec fn is_batching<S>(
    ms: Seq<(String, MachineSetup<S>)>,
    batches: Seq<SpotBatch<S>>,
) -> bool {
    &&& forall|a: int, b: int|
        0 <= a < b < batches.len() ==> request_key(batches[a]) != request_key(batches[b])
    &&& forall|b: int|
        0 <= b < batches.len() ==> (#[trigger] batches[b]).machines@ == machines_with_key(
            ms,
            request_key(batches[b]),
        ) && batches[b].request.instance_count == batches[b].machines@.len()
            && batches[b].machines@.len() > 0
    &&& forall|i: int| 0 <= i < ms.len() ==> has_batch(batches, batch_key((#[trigger] ms[i]).1))
}

/// The entry at `j` is the first one of `ms` without an image.
pub open spec fn is_first_without_image<S>(ms: Seq<(String, MachineSetup<S>)>, j: int) -> bool {
    &&& 0 <= j < ms.len()
    &&& ms[j].1.ami is None
    &&& forall|k: int| 0 <= k < j ==> (#[trigger] ms[k]).1.ami is Some
}

/// Every machine of `ms` carries an image.
pub open spec fn all_have_image<S>(ms: Seq<(String, MachineSetup<S>)>) -> bool {
    forall|k: int| 0 <= k < ms.len() ==> (#[trigger] ms[k]).1.ami is Some
}

/// The pending requests that pairing `ids` with `machines` position by
/// position gives.
pub open spec fn paired_requests<S>(
    ids: Seq<String>,
    machines: Seq<(String, MachineSetup<S>)>,
) -> Seq<PendingRequest<S>> {
    Seq::new(
        ids.len(),
        |i: int|
            PendingRequest { request_id: ids[i], nickname: machines[i].0, setup: machines[i].1 },
    )
}

proof fn lemma_keyed_machines<S>(
    ms: Seq<(String, MachineSetup<S>)>,
    keyed: Seq<((String, String), (String, MachineSetup<S>))>,
    key: Seq<Seq<char>>,
)
    requires
        keyed.len() == ms.len(),
        forall|i: int|
            0 <= i < ms.len() ==> (#[trigger] keyed[i]).1 == ms[i] && keyed[i].0.key_view()
                == batch_key(ms[i].1),
    ensures
        values_with_key(keyed, key) == machines_with_key(ms, key),
    decreases ms.len(),
{
    if ms.len() > 0 {
        lemma_keyed_machines(ms.drop_last(), keyed.drop_last(), key);
        assert(keyed.last().1 == ms.last());
    }
}

proof fn lemma_group_not_empty<K: GroupKey, V>(items: Seq<(K, V)>, key: Seq<Seq<char>>, i: int)
    requires
        0 <= i < items.len(),
        items[i].0.key_view() == key,
    ensures
        values_with_key(items, key).len() > 0,
    decreases items.len(),
{
    if i < items.len() - 1 {
        lemma_group_not_empty(items.drop_last(), key, i);
    }
}

impl<S> AWSRegion<S> {
    /// A fresh context for the region that `region` names, with nothing
    /// allocated. A name that is not a region is a configuration error.
    pub fn new(region: &str) -> (r: Result<Self, Error>)
        ensures
            match parsed_region_name(region@) {
                Some(name) => r matches Ok(ctx) && ctx.region@ == name && ctx.is_torn_down()
                    && ctx.wf(),
                None => r matches Err(Error::UnsupportedRegion { region: named }) && named@
                    == region@,
            },
    {
        Self::in_region(parse_region(region), region)
    }

    /// A fresh context for the region with the canonical name `parsed`, or
    /// the configuration error for `asked` where there is no such name.
    pub fn in_region(parsed: Option<String>, asked: &str) -> (r: Result<Self, Error>)
        ensures
            match parsed {
                Some(name) => r matches Ok(ctx) && ctx.region == name && ctx.is_torn_down()
                    && ctx.wf(),
                None => r matches Err(Error::UnsupportedRegion { region: named }) && named@
                    == asked@,
            },
    {
        match parsed {
            Some(name) => Ok(
                AWSRegion {
                    region: name,
                    security_group_id: String::new(),
                    ssh_key_name: String::new(),
                    outstanding_spot_request_ids: Vec::new(),
                    instances: Vec::new(),
                },
            ),
            None => Err(Error::UnsupportedRegion { region: String::from_str(asked) }),
        }
    }

    /// The records are keyed by what the provider issued: each outstanding
    /// request has an identifier of its own, and so has each instance.
    pub open spec fn wf(&self) -> bool {
        &&& distinct_requests(self.outstanding_spot_request_ids@)
        &&& distinct_instances(self.instances@)
    }

    /// Nothing is allocated: no instance, no outstanding request, no security
    /// group and no key pair.
    pub open spec fn is_torn_down(&self) -> bool {
        &&& self.instances@.len() == 0
        &&& self.outstanding_spot_request_ids@.len() == 0
        &&& self.security_group_id@.len() == 0
        &&& self.ssh_key_name@.len() == 0
    }

    /// The temporary security group to create: a fresh name, and rules that
    /// let ICMP, TCP and UDP in from anywhere, on every port.
    pub fn make_security_group(&self) -> (req: SecurityGroupRequest)
        ensures
            crate::providers::is_generated_name(req.group_name@, "security"@, "_"@),
            req.description@ == "temporary access group for tsunami VMs"@,
            req.rules@.len() == 3,
            req.rules@[0].ip_protocol@ == "icmp"@ && req.rules@[0].from_port == -1
                && req.rules@[0].to_port == -1,
            req.rules@[1].ip_protocol@ == "tcp"@ && req.rules@[1].from_port == 0
                && req.rules@[1].to_port == 65535,
            req.rules@[2].ip_protocol@ == "udp"@ && req.rules@[2].from_port == 0
                && req.rules@[2].to_port == 65535,
            forall|i: int| 0 <= i < 3 ==> (#[trigger] req.rules@[i]).cidr_ip@ == "0.0.0.0/0"@,
    {
        let mut rules: Vec<IngressRule> = Vec::new();
        rules.push(
            IngressRule {
                ip_protocol: String::from_str("icmp"),
                from_port: -1,
                to_port: -1,
                cidr_ip: String::from_str("0.0.0.0/0"),
            },
        );
        rules.push(
            IngressRule {
                ip_protocol: String::from_str("tcp"),
                from_port: 0,
                to_port: 65535,
                cidr_ip: String::from_str("0.0.0.0/0"),
            },
        );
        rules.push(
            IngressRule {
                ip_protocol: String::from_str("udp"),
                from_port: 0,
                to_port: 65535,
                cidr_ip: String::from_str("0.0.0.0/0"),
            },
        );
        SecurityGroupRequest {
            group_name: rand_name("security"),
            description: String::from_str("temporary access group for tsunami VMs"),
            rules,
        }
    }

    /// Records the identifier that the provider gave the security group.
    pub fn set_security_group(&mut self, group_id: String)
        ensures
            final(self).security_group_id == group_id,
            final(self).region == old(self).region,
            final(self).ssh_key_name == old(self).ssh_key_name,
            final(self).outstanding_spot_request_ids == old(self).outstanding_spot_request_ids,
            final(self).instances == old(self).instances,
    {
        self.security_group_id = group_id;
    }

    /// A fresh name for the key pair to create.
    pub fn make_ssh_key(&self) -> (key_name: String)
        ensures
            crate::providers::is_generated_name(key_name@, "key"@, "_"@),
    {
        rand_name("key")
    }

    /// Records the name under which the provider created the key pair.
    pub fn set_ssh_key(&mut self, key_name: String)
        ensures
            final(self).ssh_key_name == key_name,
            final(self).region == old(self).region,
            final(self).security_group_id == old(self).security_group_id,
            final(self).outstanding_spot_request_ids == old(self).outstanding_spot_request_ids,
            final(self).instances == old(self).instances,
    {
        self.ssh_key_name = key_name;
    }

    /// Batches `machines` into one-time spot requests that end after
    /// `max_duration` minutes: one request per image and instance size, each
    /// tagged with this region's security group and key pair.
    ///
    /// Nothing is requested for an empty batch or where a machine has no
    /// image: both are configuration errors.
    pub fn make_spot_instance_requests(
        &self,
        max_duration: i64,
        machines: Vec<(String, MachineSetup<S>)>,
    ) -> (r: Result<Vec<SpotBatch<S>>, Error>)
        ensures
            machines@.len() == 0 ==> r matches Err(Error::EmptyBatch),
            machines@.len() > 0 && !all_have_image(machines@) ==> (r matches Err(
                Error::MissingImage { nickname },
            ) && exists|j: int| #[trigger]
                is_first_without_image(machines@, j) && nickname@ == machines@[j].0@),
            machines@.len() > 0 && all_have_image(machines@) ==> (r matches Ok(batches)
                && is_batching(machines@, batches@) && forall|b: int|
                0 <= b < batches@.len() ==> (#[trigger] batches@[b]).request.block_duration_minutes
                    == max_duration && batches@[b].request.security_group_id@
                    == self.security_group_id@ && batches@[b].request.key_name@
                    == self.ssh_key_name@),
    {
        if machines.len() == 0 {
            return Err(Error::EmptyBatch);
        }
        let mut j: usize = 0;
        while j < machines.len()
            invariant
                j <= machines@.len(),
                forall|k: int| 0 <= k < j ==> (#[trigger] machines@[k]).1.ami is Some,
            decreases machines@.len() - j,
        {
            if machines[j].1.ami.is_none() {
                assert(is_first_without_image(machines@, j as int));
                return Err(Error::MissingImage { nickname: machines[j].0.clone() });
            }
            j += 1;
        }
        let ghost ms = machines@;
        let mut keyed: Vec<((String, String), (String, MachineSetup<S>))> = Vec::new();
        for m in it: machines
            invariant
                it.seq() == ms,
                all_have_image(ms),
                keyed@.len() == it.index(),
                forall|i: int|
                    0 <= i < keyed@.len() ==> (#[trigger] keyed@[i]).1 == ms[i]
                        && keyed@[i].0.key_view() == batch_key(ms[i].1),
        {
            assert(ms[it.index() as int].1.ami is Some);
            let ami = match &m.1.ami {
                Some(ami) => ami.clone(),
                None => String::new(),
            };
            let typ = m.1.instance_type.clone();
            keyed.push(((ami, typ), m));
        }
        let ghost ks = keyed@;
        let groups = into_group_map(keyed);
        let ghost gs = groups@;
        let mut batches: Vec<SpotBatch<S>> = Vec::new();
        for g in it: groups
            invariant
                it.seq() == gs,
                is_grouping(ks, gs),
                batches@.len() == it.index(),
                forall|b: int|
                    0 <= b < batches@.len() ==> request_key(#[trigger] batches@[b])
                        == gs[b].0.key_view() && batches@[b].machines == gs[b].1
                        && batches@[b].request.instance_count == gs[b].1@.len()
                        && batches@[b].request.block_duration_minutes == max_duration
                        && batches@[b].request.security_group_id@ == self.security_group_id@
                        && batches@[b].request.key_name@ == self.ssh_key_name@,
        {
            let (key, members) = g;
            let request = SpotRequest {
                image_id: key.0,
                instance_type: key.1,
                instance_count: members.len(),
                block_duration_minutes: max_duration,
                security_group_id: self.security_group_id.clone(),
                key_name: self.ssh_key_name.clone(),
            };
            batches.push(SpotBatch { request, machines: members });
        }
        proof {
            assert forall|b: int| 0 <= b < batches@.len() implies (#[trigger] batches@[b]).machines@
                == machines_with_key(ms, request_key(batches@[b])) && batches@[b].machines@.len()
                > 0 by {
                lemma_keyed_machines(ms, ks, request_key(batches@[b]));
                assert(crate::providers::has_key(ks, gs[b].0.key_view()));
                let i = choose|i: int|
                    0 <= i < ks.len() && (#[trigger] ks[i]).0.key_view() == gs[b].0.key_view();
                lemma_group_not_empty(ks, gs[b].0.key_view(), i);
            }
            assert forall|i: int| 0 <= i < ms.len() implies has_batch(
                batches@,
                batch_key((#[trigger] ms[i]).1),
            ) by {
                assert(crate::providers::has_key(gs, ks[i].0.key_view()));
                let g = choose|g: int|
                    0 <= g < gs.len() && (#[trigger] gs[g]).0.key_view() == ks[i].0.key_view();
                assert(request_key(batches@[g]) == batch_key(ms[i].1));
            }
        }
        Ok(batches)
    }

    /// Files the request identifiers that the provider returned for a
    /// capacity request under the machines of the request, position by
    /// position. The provider owes one identifier per machine: any other
    /// number is an error, and nothing is filed.
    pub fn record_spot_requests(
        &mut self,
        ids: Vec<String>,
        machines: Vec<(String, MachineSetup<S>)>,
    ) -> (r: Result<(), Error>)
        ensures
            final(self).region == old(self).region,
            final(self).security_group_id == old(self).security_group_id,
            final(self).ssh_key_name == old(self).ssh_key_name,
            final(self).instances == old(self).instances,
            ids@.len() != machines@.len() ==> (r matches Err(
                Error::RequestCountMismatch { got, expected },
            ) && got == ids@.len() && expected == machines@.len()
                && final(self).outstanding_spot_request_ids
                == old(self).outstanding_spot_request_ids),
            ids@.len() == machines@.len() ==> r is Ok && final(self).outstanding_spot_request_ids@
                == old(self).outstanding_spot_request_ids@ + paired_requests(ids@, machines@),
            old(self).wf() && fresh_requests(ids@, old(self).outstanding_spot_request_ids@)
                ==> final(self).wf(),
    {
        if ids.len() != machines.len() {
            return Err(Error::RequestCountMismatch { got: ids.len(), expected: machines.len() });
        }
        let ghost before = self.outstanding_spot_request_ids@;
        let ghost paired = paired_requests(ids@, machines@);
        let pairs = zip_eq(ids, machines);
        let ghost ps = pairs@;
        for pair in it: pairs
            invariant
                it.seq() == ps,
                ps.len() == paired.len(),
                forall|i: int|
                    0 <= i < ps.len() ==> (#[trigger] paired[i]).request_id == ps[i].0
                        && paired[i].nickname == ps[i].1.0 && paired[i].setup == ps[i].1.1,
                self.region == old(self).region,
                self.security_group_id == old(self).security_group_id,
                self.ssh_key_name == old(self).ssh_key_name,
                self.instances == old(self).instances,
                self.outstanding_spot_request_ids@ == before + paired.take(it.index()),
        {
            let (request_id, (nickname, setup)) = pair;
            self.outstanding_spot_request_ids.push(PendingRequest { request_id, nickname, setup });
            assert(paired.take(it.index() + 1) == paired.take(it.index()).push(
                paired[it.index()],
            ));
        }
        assert(paired.take(paired.len() as int) == paired);
        proof {
            if distinct_requests(before) && fresh_requests(ids@, before) {
                let after = before + paired;
                assert forall|i: int, j: int| 0 <= i < j < after.len() implies after[i].request_id@
                    != after[j].request_id@ by {
                    if j >= before.len() {
                        assert(after[j] == paired[j - before.len()]);
                        if i >= before.len() {
                            assert(after[i] == paired[i - before.len()]);
                        }
                    }
                }
            }
        }
        Ok(())
    }
}

/// What the provider reports of one capacity request.
#[derive(Debug, Clone)]
pub struct SpotStatus {
    pub request_id: String,
    pub state: String,
    pub instance_id: Option<String>,
}

/// A request is pending while it is open, or active with no instance
/// assigned yet.
pub open spec fn is_pending(s: SpotStatus) -> bool {
    s.state@ == "open"@ || (s.state@ == "active"@ && s.instance_id is None)
}

/// A request is fulfilled once it is active and has an instance.
pub open spec fn is_fulfilled(s: SpotStatus) -> bool {
    s.state@ == "active"@ && s.instance_id is Some
}

/// Some request of `statuses` is pending.
pub open spec fn any_pending(statuses: Seq<SpotStatus>) -> bool {
    exists|i: int| 0 <= i < statuses.len() && is_pending(#[trigger] statuses[i])
}

/// Some outstanding request has the identifier `id`.
pub open spec fn has_request<S>(pending: Seq<PendingRequest<S>>, id: Seq<char>) -> bool {
    exists|p: int| 0 <= p < pending.len() && (#[trigger] pending[p]).request_id@ == id
}

/// `p` is the first outstanding request with the identifier `id`.
pub open spec fn is_first_request<S>(pending: Seq<PendingRequest<S>>, id: Seq<char>, p: int) -> bool {
    &&& 0 <= p < pending.len()
    &&& pending[p].request_id@ == id
    &&& forall|k: int| 0 <= k < p ==> (#[trigger] pending[k]).request_id@ != id
}

/// The position of the first outstanding request with the identifier `id`.
pub open spec fn request_index<S>(pending: Seq<PendingRequest<S>>, id: Seq<char>) -> int {
    choose|p: int| is_first_request(pending, id, p)
}

/// The record of the instance that the request `req` was fulfilled with.
pub open spec fn fulfilled_record<S>(instance_id: String, req: PendingRequest<S>) -> InstanceRecord<S> {
    InstanceRecord { instance_id, address: None, nickname: req.nickname, setup: req.setup }
}

/// The instance records that resolving `statuses` in order against the
/// outstanding requests `pending` gives: one per fulfilled status whose
/// request is outstanding, which is thereby used up. Statuses in any other
/// state add nothing.
pub open spec fn promoted<S>(statuses: Seq<SpotStatus>, pending: Seq<PendingRequest<S>>) -> Seq<
    InstanceRecord<S>,
>
    decreases statuses.len(),
{
    if statuses.len() == 0 {
        Seq::empty()
    } else {
        let s = statuses.first();
        if is_fulfilled(s) && has_request(pending, s.request_id@) {
            let p = request_index(pending, s.request_id@);
            seq![fulfilled_record(s.instance_id.unwrap(), pending[p])] + promoted(
                statuses.drop_first(),
                pending.remove(p),
            )
        } else {
            promoted(statuses.drop_first(), pending)
        }
    }
}

/// The instances that `statuses` name are new to `instances`: no two
/// statuses name the same instance, and none names a tracked one.
pub open spec fn fresh_instances<S>(statuses: Seq<SpotStatus>, instances: Seq<InstanceRecord<S>>) -> bool {
    &&& forall|i: int, j: int|
        0 <= i < j < statuses.len() && statuses[i].instance_id is Some
            && statuses[j].instance_id is Some ==> statuses[i].instance_id.unwrap()@
            != statuses[j].instance_id.unwrap()@
    &&& forall|i: int, p: int|
        0 <= i < statuses.len() && statuses[i].instance_id is Some && 0 <= p < instances.len()
            ==> statuses[i].instance_id.unwrap()@ != instances[p].instance_id@
}

/// The identifiers of the outstanding requests, in order.
pub open spec fn request_ids<S>(pending: Seq<PendingRequest<S>>) -> Seq<String> {
    Seq::new(pending.len(), |i: int| pending[i].request_id)
}

/// The provider's read path does not know a request yet: the one failure of
/// a status query that is retried.
pub open spec fn is_not_yet_visible(msg: Seq<char>) -> bool {
    crate::text::is_substring("The spot instance request ID"@, msg) && crate::text::is_substring(
        "does not exist"@,
        msg,
    )
}

/// The deadline `max_wait`, if there is one, lies before `elapsed_ms`.
pub open spec fn deadline_passed(elapsed_ms: u64, max_wait: Option<u64>) -> bool {
    max_wait matches Some(limit) && elapsed_ms > limit
}

/// Whether the deadline has passed.
pub fn is_deadline_passed(elapsed_ms: u64, max_wait: Option<u64>) -> (passed: bool)
    ensures
        passed == deadline_passed(elapsed_ms, max_wait),
{
    match max_wait {
        Some(limit) => elapsed_ms > limit,
        None => false,
    }
}

/// What is left of the deadline after `elapsed_ms`, for the next stage.
pub fn remaining_wait(max_wait: Option<u64>, elapsed_ms: u64) -> (left: Option<u64>)
    ensures
        match max_wait {
            None => left is None,
            Some(limit) => left == Some(
                if elapsed_ms >= limit {
                    0u64
                } else {
                    (limit - elapsed_ms) as u64
                },
            ),
        },
{
    match max_wait {
        None => None,
        Some(limit) => if elapsed_ms >= limit {
            Some(0)
        } else {
            Some(limit - elapsed_ms)
        },
    }
}

/// What happened since the last step of the wait for capacity.
#[derive(Debug, Clone)]
pub enum SpotEvent {
    /// The status query failed with this message.
    DescribeFailed(String),
    /// The status query returned these statuses.
    Described(Vec<SpotStatus>),
    /// The poll interval was slept; so many milliseconds have passed since
    /// the wait began.
    Slept(u64),
    /// The cancellation failed with this message.
    CancelFailed(String),
    /// The cancellation went through, and the requests had time to settle.
    Settled,
}

/// What to do next in the wait for capacity.
#[derive(Debug, Clone)]
pub enum SpotAction {
    /// Query the status of these requests.
    Describe(Vec<String>),
    /// Sleep for the poll interval.
    Sleep,
    /// The deadline has passed: cancel these requests.
    Cancel(Vec<String>),
    /// Every request is resolved.
    Done,
    /// The wait has failed.
    Fail(Error),
}

/// The poll interval, in milliseconds.
pub const POLL_INTERVAL_MS: u64 = 1000;

/// The lifecycle code of a running instance.
pub const RUNNING: i64 = 16;

/// What the provider reports of one instance.
#[derive(Debug, Clone)]
pub struct InstanceStatus {
    pub instance_id: Option<String>,
    pub state_code: Option<i64>,
    pub public_dns_name: Option<String>,
    pub public_ip_address: Option<String>,
}

/// An instance is ready once it is running and has both a public DNS name
/// and a public IP address.
pub open spec fn is_ready(s: InstanceStatus) -> bool {
    &&& s.state_code == Some(RUNNING)
    &&& s.instance_id is Some
    &&& s.public_dns_name is Some
    &&& s.public_ip_address is Some
}

/// The record at `p` is for the instance `id` and has no address yet.
pub open spec fn awaits_address_at<S>(instances: Seq<InstanceRecord<S>>, id: Seq<char>, p: int) -> bool {
    0 <= p < instances.len() && instances[p].instance_id@ == id && instances[p].address is None
}

/// `p` is the first record for the instance `id` that has no address yet.
pub open spec fn is_first_awaiting<S>(instances: Seq<InstanceRecord<S>>, id: Seq<char>, p: int) -> bool {
    &&& awaits_address_at(instances, id, p)
    &&& forall|k: int| 0 <= k < p ==> !#[trigger] awaits_address_at(instances, id, k)
}

/// Some record for the instance `id` has no address yet.
pub open spec fn awaits_address<S>(instances: Seq<InstanceRecord<S>>, id: Seq<char>) -> bool {
    exists|p: int| #[trigger] awaits_address_at(instances, id, p)
}

/// Every instance has its address.
pub open spec fn all_addressed<S>(instances: Seq<InstanceRecord<S>>) -> bool {
    forall|i: int| 0 <= i < instances.len() ==> (#[trigger] instances[i]).address is Some
}

/// The record `rec` with the address filled in.
pub open spec fn with_address<S>(rec: InstanceRecord<S>, ip: String, dns: String) -> InstanceRecord<S> {
    InstanceRecord {
        instance_id: rec.instance_id,
        address: Some((ip, dns)),
        nickname: rec.nickname,
        setup: rec.setup,
    }
}

/// An instance that has just become reachable: connect to it, and run its
/// setup procedure if it has one.
#[derive(Debug, Clone)]
pub struct BringUp {
    pub instance_id: String,
    pub nickname: String,
    pub public_ip: String,
    pub public_dns: String,
    pub run_setup: bool,
}

/// The report `status` brings up the record at `p`: `after` is `before` with
/// the address of that record filled in, and `up` names the instance, its
/// nickname and its address, and says whether a setup procedure is to run.
pub open spec fn is_brought_up<S>(
    before: Seq<InstanceRecord<S>>,
    after: Seq<InstanceRecord<S>>,
    status: InstanceStatus,
    p: int,
    up: BringUp,
) -> bool {
    &&& is_first_awaiting(before, status.instance_id.unwrap()@, p)
    &&& after == before.update(
        p,
        with_address(
            before[p],
            status.public_ip_address.unwrap(),
            status.public_dns_name.unwrap(),
        ),
    )
    &&& up.instance_id == status.instance_id.unwrap()
    &&& up.nickname == before[p].nickname
    &&& up.public_ip == status.public_ip_address.unwrap()
    &&& up.public_dns == status.public_dns_name.unwrap()
    &&& up.run_setup == (before[p].setup.setup is Some)
}

impl BringUp {
    /// The error for a failed SSH handshake with this instance.
    pub fn handshake_failed(&self) -> (e: Error)
        ensures
            e matches Error::Connectivity { nickname, address } && nickname == self.nickname
                && address == self.public_ip,
    {
        Error::Connectivity { nickname: self.nickname.clone(), address: self.public_ip.clone() }
    }

    /// The error for a failed setup procedure on this instance.
    pub fn setup_failed(&self) -> (e: Error)
        ensures
            e matches Error::Setup { nickname } && nickname == self.nickname,
    {
        Error::Setup { nickname: self.nickname.clone() }
    }
}

/// `p` is the first record under the nickname `nickname`.
pub open spec fn is_first_named<S>(instances: Seq<InstanceRecord<S>>, nickname: Seq<char>, p: int) -> bool {
    &&& 0 <= p < instances.len()
    &&& instances[p].nickname@ == nickname
    &&& forall|k: int| 0 <= k < p ==> (#[trigger] instances[k]).nickname@ != nickname
}

/// The connection entry of an instance that has its address.
pub open spec fn connection_of<S>(rec: InstanceRecord<S>) -> (String, Machine) {
    (
        rec.nickname,
        Machine {
            nickname: rec.nickname,
            public_dns: rec.address.unwrap().1,
            public_ip: rec.address.unwrap().0,
        },
    )
}

/// The records of `instances` that have their address, in order.
pub open spec fn reachable<S>(instances: Seq<InstanceRecord<S>>) -> Seq<InstanceRecord<S>>
    decreases instances.len(),
{
    if instances.len() == 0 {
        Seq::empty()
    } else {
        let rest = reachable(instances.drop_last());
        if instances.last().address is Some {
            rest.push(instances.last())
        } else {
            rest
        }
    }
}

/// The connection entries of `instances`, in order.
pub open spec fn connections<S>(instances: Seq<InstanceRecord<S>>) -> Seq<(String, Machine)> {
    Seq::new(instances.len(), |i: int| connection_of(instances[i]))
}

/// The identifiers of `instances`, in order.
pub open spec fn instance_ids<S>(instances: Seq<InstanceRecord<S>>) -> Seq<String> {
    Seq::new(instances.len(), |i: int| instances[i].instance_id)
}

/// A failed termination is tried again only where the connection to the
/// provider broke.
pub open spec fn is_transient_termination_error(msg: Seq<char>) -> bool {
    crate::text::is_substring("Pooled stream disconnected"@, msg) || crate::text::is_substring(
        "broken pipe"@,
        msg,
    )
}

/// Whether a termination that failed with `msg` is tried again.
pub fn retry_termination(msg: &str) -> (retry: bool)
    ensures
        retry == is_transient_termination_error(msg@),
{
    contains(msg, "Pooled stream disconnected") || contains(msg, "broken pipe")
}

/// What to release at teardown. The three steps do not depend on each
/// other: each is attempted whatever became of the others.
#[derive(Debug, Clone)]
pub struct Teardown {
    /// The instances to terminate; none where the list is empty.
    pub terminate: Vec<String>,
    /// The security group to delete, if one was made.
    pub security_group: Option<String>,
    /// The key pair to delete, if one was made.
    pub key_pair: Option<String>,
}

impl<S> AWSRegion<S> {
    /// The security group that teardown deletes: the one that was made.
    pub open spec fn group_to_delete(&self) -> Option<String> {
        if self.security_group_id@.len() > 0 {
            Some(self.security_group_id)
        } else {
            None
        }
    }

    /// The key pair that teardown deletes: the one that was made.
    pub open spec fn key_to_delete(&self) -> Option<String> {
        if self.ssh_key_name@.len() > 0 {
            Some(self.ssh_key_name)
        } else {
            None
        }
    }

    /// The position of the first outstanding request with the identifier
    /// `id`.
    pub fn find_request(&self, id: &str) -> (r: Option<usize>)
        ensures
            match r {
                Some(p) => is_first_request(self.outstanding_spot_request_ids@, id@, p as int),
                None => !has_request(self.outstanding_spot_request_ids@, id@),
            },
    {
        let mut i: usize = 0;
        while i < self.outstanding_spot_request_ids.len()
            invariant
                i <= self.outstanding_spot_request_ids@.len(),
                forall|k: int|
                    0 <= k < i ==> (#[trigger] self.outstanding_spot_request_ids@[k]).request_id@
                        != id@,
            decreases self.outstanding_spot_request_ids@.len() - i,
        {
            if same(self.outstanding_spot_request_ids[i].request_id.as_str(), id) {
                return Some(i);
            }
            i += 1;
        }
        None
    }

    /// The identifiers of the outstanding requests.
    pub fn spot_request_ids(&self) -> (ids: Vec<String>)
        ensures
            ids@ == request_ids(self.outstanding_spot_request_ids@),
    {
        let mut ids: Vec<String> = Vec::new();
        let mut i: usize = 0;
        while i < self.outstanding_spot_request_ids.len()
            invariant
                i <= self.outstanding_spot_request_ids@.len(),
                ids@ == request_ids(self.outstanding_spot_request_ids@).take(i as int),
            decreases self.outstanding_spot_request_ids@.len() - i,
        {
            ids.push(self.outstanding_spot_request_ids[i].request_id.clone());
            assert(request_ids(self.outstanding_spot_request_ids@).take(i + 1) == request_ids(
                self.outstanding_spot_request_ids@,
            ).take(i as int).push(self.outstanding_spot_request_ids@[i as int].request_id));
            i += 1;
        }
        assert(request_ids(self.outstanding_spot_request_ids@).take(i as int) == request_ids(
            self.outstanding_spot_request_ids@,
        ));
        ids
    }

    /// Resolves every outstanding request against `statuses`. A fulfilled
    /// request becomes an instance record without an address; a request in
    /// any other state is dropped, which does not touch its siblings.
    /// Afterwards no request is outstanding.
    pub fn promote_fulfilled(&mut self, statuses: &Vec<SpotStatus>)
        ensures
            final(self).instances@ == old(self).instances@ + promoted(
                statuses@,
                old(self).outstanding_spot_request_ids@,
            ),
            final(self).outstanding_spot_request_ids@.len() == 0,
            final(self).region == old(self).region,
            final(self).security_group_id == old(self).security_group_id,
            final(self).ssh_key_name == old(self).ssh_key_name,
            old(self).wf() && fresh_instances(statuses@, old(self).instances@) ==> final(self).wf(),
    {
        proof {
            if old(self).wf() && fresh_instances(statuses@, old(self).instances@) {
                lemma_promoted_keep_distinct(
                    statuses@,
                    old(self).outstanding_spot_request_ids@,
                    old(self).instances@,
                );
            }
        }
        let ghost goal = old(self).instances@ + promoted(
            statuses@,
            old(self).outstanding_spot_request_ids@,
        );
        let mut i: usize = 0;
        assert(statuses@.skip(0) == statuses@);
        while i < statuses.len()
            invariant
                i <= statuses@.len(),
                goal == self.instances@ + promoted(
                    statuses@.skip(i as int),
                    self.outstanding_spot_request_ids@,
                ),
                self.region == old(self).region,
                self.security_group_id == old(self).security_group_id,
                self.ssh_key_name == old(self).ssh_key_name,
            decreases statuses@.len() - i,
        {
            let s = &statuses[i];
            let ghost rest = statuses@.skip(i as int);
            let ghost pending = self.outstanding_spot_request_ids@;
            assert(rest.first() == statuses@[i as int]);
            assert(rest.drop_first() == statuses@.skip(i + 1));
            if same(s.state.as_str(), "active") {
                match &s.instance_id {
                    Some(instance_id) => {
                        match self.find_request(s.request_id.as_str()) {
                            Some(p) => {
                                assert(is_first_request(pending, s.request_id@, p as int));
                                assert(has_request(pending, s.request_id@));
                                assert(request_index(pending, s.request_id@) == p);
                                let req = self.outstanding_spot_request_ids.remove(p);
                                let ghost before = self.instances@;
                                self.instances.push(
                                    InstanceRecord {
                                        instance_id: instance_id.clone(),
                                        address: None,
                                        nickname: req.nickname,
                                        setup: req.setup,
                                    },
                                );
                                assert(self.instances@ + promoted(
                                    rest.drop_first(),
                                    pending.remove(p as int),
                                ) == before + (seq![
                                    fulfilled_record(s.instance_id.unwrap(), pending[p as int]),
                                ] + promoted(rest.drop_first(), pending.remove(p as int))));
                            },
                            None => {},
                        }
                    },
                    None => {},
                }
            }
            i += 1;
        }
        self.outstanding_spot_request_ids = Vec::new();
    }

    /// Whether some request of `statuses` is still pending.
    pub fn has_pending(statuses: &Vec<SpotStatus>) -> (pending: bool)
        ensures
            pending == any_pending(statuses@),
    {
        let mut i: usize = 0;
        while i < statuses.len()
            invariant
                i <= statuses@.len(),
                forall|k: int| 0 <= k < i ==> !is_pending(#[trigger] statuses@[k]),
            decreases statuses@.len() - i,
        {
            let s = &statuses[i];
            if same(s.state.as_str(), "open") || (same(s.state.as_str(), "active")
                && s.instance_id.is_none()) {
                return true;
            }
            i += 1;
        }
        false
    }

    /// One step of the wait for capacity: takes what happened and says what
    /// to do next. The wait starts with a status query for
    /// [`spot_request_ids`](AWSRegion::spot_request_ids).
    ///
    /// A failed query ends the wait, unless it failed because the provider
    /// does not know the requests yet: that counts like a pending request.
    /// While a request is pending the interval is slept and, if the deadline
    /// has not passed, the query repeated. Once none is pending the fulfilled requests become
    /// instance records and the others are dropped. Past the deadline all
    /// outstanding requests are cancelled, and the wait ends in a timeout.
    pub fn wait_for_spot_instance_requests(&mut self, event: SpotEvent, max_wait: Option<u64>) -> (action:
        SpotAction)
        ensures
            old(self).wf() && (event matches SpotEvent::Described(statuses) ==> fresh_instances(
                statuses@,
                old(self).instances@,
            )) ==> final(self).wf(),
            final(self).region == old(self).region,
            final(self).security_group_id == old(self).security_group_id,
            final(self).ssh_key_name == old(self).ssh_key_name,
            match event {
                SpotEvent::DescribeFailed(msg) => *final(self) == *old(self) && if is_not_yet_visible(
                    msg@,
                ) {
                    action is Sleep
                } else {
                    action matches SpotAction::Fail(Error::Provider { operation, cause })
                        && operation == Operation::DescribeRequests && cause@ == msg@
                },
                SpotEvent::Described(statuses) => if any_pending(statuses@) {
                    action is Sleep && *final(self) == *old(self)
                } else {
                    action is Done && final(self).instances@ == old(self).instances@ + promoted(
                        statuses@,
                        old(self).outstanding_spot_request_ids@,
                    ) && final(self).outstanding_spot_request_ids@.len() == 0
                },
                SpotEvent::Slept(elapsed_ms) => if deadline_passed(elapsed_ms, max_wait) {
                    &&& action matches SpotAction::Cancel(ids) && ids@ == request_ids(
                        old(self).outstanding_spot_request_ids@,
                    )
                    &&& final(self).outstanding_spot_request_ids@.len() == 0
                    &&& final(self).instances == old(self).instances
                } else {
                    action matches SpotAction::Describe(ids) && ids@ == request_ids(
                        old(self).outstanding_spot_request_ids@,
                    ) && *final(self) == *old(self)
                },
                SpotEvent::CancelFailed(msg) => *final(self) == *old(self) && (
                action matches SpotAction::Fail(Error::Provider { operation, cause }) && operation
                    == Operation::CancelRequests && cause@ == msg@),
                SpotEvent::Settled => *final(self) == *old(self) && (
                action matches SpotAction::Fail(Error::Timeout { stage }) && stage
                    == Stage::Fulfillment),
            },
    {
        match event {
            SpotEvent::DescribeFailed(msg) => {
                if contains(msg.as_str(), "The spot instance request ID") && contains(
                    msg.as_str(),
                    "does not exist",
                ) {
                    SpotAction::Sleep
                } else {
                    SpotAction::Fail(
                        Error::Provider { operation: Operation::DescribeRequests, cause: msg },
                    )
                }
            },
            SpotEvent::Described(statuses) => {
                if Self::has_pending(&statuses) {
                    SpotAction::Sleep
                } else {
                    self.promote_fulfilled(&statuses);
                    SpotAction::Done
                }
            },
            SpotEvent::Slept(elapsed_ms) => {
                let ids = self.spot_request_ids();
                if is_deadline_passed(elapsed_ms, max_wait) {
                    self.outstanding_spot_request_ids = Vec::new();
                    SpotAction::Cancel(ids)
                } else {
                    SpotAction::Describe(ids)
                }
            },
            SpotEvent::CancelFailed(msg) => SpotAction::Fail(
                Error::Provider { operation: Operation::CancelRequests, cause: msg },
            ),
            SpotEvent::Settled => SpotAction::Fail(Error::Timeout { stage: Stage::Fulfillment }),
        }
    }
}

impl<S> AWSRegion<S> {
    /// The position of the first record for the instance `id` that has no
    /// address yet.
    pub fn find_awaiting(&self, id: &str) -> (r: Option<usize>)
        ensures
            match r {
                Some(p) => is_first_awaiting(self.instances@, id@, p as int),
                None => !awaits_address(self.instances@, id@),
            },
    {
        let mut i: usize = 0;
        while i < self.instances.len()
            invariant
                i <= self.instances@.len(),
                forall|k: int| 0 <= k < i ==> !#[trigger] awaits_address_at(self.instances@, id@, k),
            decreases self.instances@.len() - i,
        {
            if same(self.instances[i].instance_id.as_str(), id) && self.instances[i].address.is_none() {
                return Some(i);
            }
            i += 1;
        }
        None
    }

    /// Takes the provider's report of one instance during the wait for
    /// readiness. An instance that is ready and tracked without an address
    /// gets its address recorded, and is handed back to be connected to and
    /// set up. Any other report changes nothing: an instance is brought up
    /// once, and never before it is ready.
    pub fn on_instance_status(&mut self, status: &InstanceStatus) -> (r: Option<BringUp>)
        ensures
            final(self).region == old(self).region,
            final(self).security_group_id == old(self).security_group_id,
            final(self).ssh_key_name == old(self).ssh_key_name,
            final(self).outstanding_spot_request_ids == old(self).outstanding_spot_request_ids,
            r is Some <==> is_ready(*status) && awaits_address(
                old(self).instances@,
                status.instance_id.unwrap()@,
            ),
            r is None ==> final(self).instances == old(self).instances,
            old(self).wf() ==> final(self).wf(),
            r matches Some(up) ==> exists|p: int| #[trigger]
                is_brought_up(old(self).instances@, final(self).instances@, *status, p, up),
    {
        let running = match status.state_code {
            Some(code) => code == RUNNING,
            None => false,
        };
        if !running {
            return None;
        }
        match (&status.instance_id, &status.public_dns_name, &status.public_ip_address) {
            (Some(instance_id), Some(public_dns), Some(public_ip)) => {
                match self.find_awaiting(instance_id.as_str()) {
                    Some(p) => {
                        let ghost before = self.instances@;
                        assert(awaits_address_at(before, instance_id@, p as int));
                        let rec = self.instances.remove(p);
                        let run_setup = rec.setup.setup.is_some();
                        let nickname = rec.nickname.clone();
                        self.instances.insert(
                            p,
                            InstanceRecord {
                                instance_id: rec.instance_id,
                                address: Some((public_ip.clone(), public_dns.clone())),
                                nickname: rec.nickname,
                                setup: rec.setup,
                            },
                        );
                        assert(self.instances@ == before.update(
                            p as int,
                            with_address(
                                before[p as int],
                                status.public_ip_address.unwrap(),
                                status.public_dns_name.unwrap(),
                            ),
                        ));
                        let up = BringUp {
                            instance_id: instance_id.clone(),
                            nickname,
                            public_ip: public_ip.clone(),
                            public_dns: public_dns.clone(),
                            run_setup,
                        };
                        let r = Some(up);
                        assert(is_brought_up(
                            old(self).instances@,
                            self.instances@,
                            *status,
                            p as int,
                            r->0,
                        ));
                        return r;
                    },
                    None => None,
                }
            },
            _ => None,
        }
    }

    /// Whether every instance has its address.
    pub fn all_ready(&self) -> (ready: bool)
        ensures
            ready == all_addressed(self.instances@),
    {
        let mut i: usize = 0;
        while i < self.instances.len()
            invariant
                i <= self.instances@.len(),
                forall|k: int| 0 <= k < i ==> (#[trigger] self.instances@[k]).address is Some,
            decreases self.instances@.len() - i,
        {
            if self.instances[i].address.is_none() {
                return false;
            }
            i += 1;
        }
        true
    }

    /// Decides how the wait for readiness goes on after a round of reports,
    /// `elapsed_ms` into the wait: it is over once every instance has its
    /// address (`Ok(true)`), times out where the deadline has passed before
    /// that, and polls again otherwise (`Ok(false)`).
    pub fn wait_for_instances(&self, elapsed_ms: u64, max_wait: Option<u64>) -> (r: Result<bool, Error>)
        ensures
            all_addressed(self.instances@) ==> r == Ok::<bool, Error>(true),
            !all_addressed(self.instances@) && !deadline_passed(elapsed_ms, max_wait) ==> r == Ok::<
                bool,
                Error,
            >(false),
            !all_addressed(self.instances@) && deadline_passed(elapsed_ms, max_wait) ==> (
            r matches Err(Error::Timeout { stage }) && stage == Stage::Readiness),
    {
        if self.all_ready() {
            Ok(true)
        } else if is_deadline_passed(elapsed_ms, max_wait) {
            Err(Error::Timeout { stage: Stage::Readiness })
        } else {
            Ok(false)
        }
    }

    /// Where to connect to: one entry per instance that has its address,
    /// under its nickname, in the order of the records. An instance that
    /// never became reachable is left out, and does not fail the call.
    /// Changes nothing, and can be asked any number of times.
    pub fn connect_all(&self) -> (r: Result<Vec<(String, Machine)>, Error>)
        ensures
            r matches Ok(ms) && ms@ == connections(reachable(self.instances@)),
    {
        let mut ms: Vec<(String, Machine)> = Vec::new();
        let mut i: usize = 0;
        assert(self.instances@.take(0) =~= Seq::empty());
        while i < self.instances.len()
            invariant
                i <= self.instances@.len(),
                ms@ == connections(reachable(self.instances@.take(i as int))),
            decreases self.instances@.len() - i,
        {
            let rec = &self.instances[i];
            let ghost done = reachable(self.instances@.take(i as int));
            assert(self.instances@.take(i + 1).drop_last() == self.instances@.take(i as int));
            assert(self.instances@.take(i + 1).last() == self.instances@[i as int]);
            match &rec.address {
                Some((public_ip, public_dns)) => {
                    ms.push(
                        (
                            rec.nickname.clone(),
                            Machine {
                                nickname: rec.nickname.clone(),
                                public_dns: public_dns.clone(),
                                public_ip: public_ip.clone(),
                            },
                        ),
                    );
                    assert(connections(done.push(self.instances@[i as int])) == connections(
                        done,
                    ).push(connection_of(self.instances@[i as int])));
                },
                None => {},
            }
            i += 1;
        }
        assert(self.instances@.take(i as int) == self.instances@);
        Ok(ms)
    }

    /// Where to connect to for the machine `nickname`. Fails where no
    /// instance is tracked under that nickname, or where the instance never
    /// got its address.
    pub fn connect(&self, nickname: &str) -> (r: Result<(String, Machine), Error>)
        ensures
            match r {
                Ok(target) => exists|p: int| #[trigger]
                    is_first_named(self.instances@, nickname@, p) && self.instances@[p].address
                        is Some && target == connection_of(self.instances@[p]),
                Err(e) => e is NotInitialized && forall|p: int| #[trigger]
                    is_first_named(self.instances@, nickname@, p) ==> self.instances@[p].address
                        is None,
            },
    {
        let mut i: usize = 0;
        while i < self.instances.len()
            invariant
                i <= self.instances@.len(),
                forall|k: int| 0 <= k < i ==> (#[trigger] self.instances@[k]).nickname@ != nickname@,
            decreases self.instances@.len() - i,
        {
            let rec = &self.instances[i];
            if same(rec.nickname.as_str(), nickname) {
                assert(is_first_named(self.instances@, nickname@, i as int));
                return match &rec.address {
                    Some((public_ip, public_dns)) => Ok(
                        (
                            rec.nickname.clone(),
                            Machine {
                                nickname: rec.nickname.clone(),
                                public_dns: public_dns.clone(),
                                public_ip: public_ip.clone(),
                            },
                        ),
                    ),
                    None => Err(Error::NotInitialized),
                };
            }
            i += 1;
        }
        Err(Error::NotInitialized)
    }

    /// Gives up everything this context has allocated and says what has to be
    /// released for it: the instances to terminate, the security group and
    /// the key pair to delete. Afterwards the context holds nothing, so a
    /// second teardown releases nothing.
    pub fn cleanup(&mut self) -> (plan: Teardown)
        ensures
            final(self).is_torn_down(),
            final(self).wf(),
            final(self).region == old(self).region,
            plan.terminate@ == instance_ids(old(self).instances@),
            plan.security_group == old(self).group_to_delete(),
            plan.key_pair == old(self).key_to_delete(),
    {
        let mut terminate: Vec<String> = Vec::new();
        let mut i: usize = 0;
        while i < self.instances.len()
            invariant
                i <= self.instances@.len(),
                *self == *old(self),
                terminate@ == instance_ids(self.instances@).take(i as int),
            decreases self.instances@.len() - i,
        {
            terminate.push(self.instances[i].instance_id.clone());
            assert(instance_ids(self.instances@).take(i + 1) == instance_ids(self.instances@).take(
                i as int,
            ).push(self.instances@[i as int].instance_id));
            i += 1;
        }
        assert(instance_ids(self.instances@).take(i as int) == instance_ids(self.instances@));
        let security_group = if self.security_group_id.as_str().unicode_len() > 0 {
            Some(self.security_group_id.clone())
        } else {
            None
        };
        let key_pair = if self.ssh_key_name.as_str().unicode_len() > 0 {
            Some(self.ssh_key_name.clone())
        } else {
            None
        };
        self.instances = Vec::new();
        self.outstanding_spot_request_ids = Vec::new();
        self.security_group_id = String::new();
        self.ssh_key_name = String::new();
        Teardown { terminate, security_group, key_pair }
    }
}

proof fn lemma_promoted_keep_distinct<S>(
    statuses: Seq<SpotStatus>,
    pending: Seq<PendingRequest<S>>,
    instances: Seq<InstanceRecord<S>>,
)
    requires
        distinct_instances(instances),
        fresh_instances(statuses, instances),
    ensures
        distinct_instances(instances + promoted(statuses, pending)),
    decreases statuses.len(),
{
    let out = promoted(statuses, pending);
    let all = instances + out;
    assert forall|i: int, j: int| 0 <= i < j < all.len() implies all[i].instance_id@
        != all[j].instance_id@ by {
        let n = instances.len() as int;
        if j >= n {
            let l = j - n;
            lemma_promoted_come_from(statuses, pending, l);
            let b = choose|b: int| #[trigger] promoted_from(statuses, pending, l, b);
            lemma_promoted_in_order(statuses, pending, l, l, b, b);
            assert(all[j] == out[l]);
            if i >= n {
                let k = i - n;
                lemma_promoted_come_from(statuses, pending, k);
                let a = choose|a: int| #[trigger] promoted_from(statuses, pending, k, a);
                lemma_promoted_in_order(statuses, pending, k, l, a, b);
                assert(all[i] == out[k]);
            } else {
                assert(all[i] == instances[i]);
            }
        }
    }
}

/// The record at `k` of what resolving the statuses gives stands for the
/// status at `i`, and for no earlier one.
spec fn promoted_from<S>(statuses: Seq<SpotStatus>, pending: Seq<PendingRequest<S>>, k: int, i: int) -> bool
    decreases statuses.len(),
{
    if statuses.len() == 0 || k < 0 || i < 0 {
        false
    } else {
        let s = statuses.first();
        if is_fulfilled(s) && has_request(pending, s.request_id@) {
            if k == 0 {
                i == 0
            } else {
                promoted_from(
                    statuses.drop_first(),
                    pending.remove(request_index(pending, s.request_id@)),
                    k - 1,
                    i - 1,
                )
            }
        } else {
            promoted_from(statuses.drop_first(), pending, k, i - 1)
        }
    }
}

proof fn lemma_promoted_come_from<S>(statuses: Seq<SpotStatus>, pending: Seq<PendingRequest<S>>, k: int)
    requires
        0 <= k < promoted(statuses, pending).len(),
    ensures
        exists|i: int| #[trigger] promoted_from(statuses, pending, k, i),
    decreases statuses.len(),
{
    let s = statuses.first();
    let rest = statuses.drop_first();
    if is_fulfilled(s) && has_request(pending, s.request_id@) {
        let left = pending.remove(request_index(pending, s.request_id@));
        if k == 0 {
            assert(promoted_from(statuses, pending, k, 0));
        } else {
            let km = k - 1;
            lemma_promoted_come_from(rest, left, km);
            let i = choose|i: int| #[trigger] promoted_from(rest, left, km, i);
            assert(promoted_from(statuses, pending, k, i + 1));
        }
    } else {
        lemma_promoted_come_from(rest, pending, k);
        let i = choose|i: int| #[trigger] promoted_from(rest, pending, k, i);
        assert(promoted_from(statuses, pending, k, i + 1));
    }
}

proof fn lemma_promoted_in_order<S>(
    statuses: Seq<SpotStatus>,
    pending: Seq<PendingRequest<S>>,
    k: int,
    l: int,
    a: int,
    b: int,
)
    requires
        0 <= k <= l < promoted(statuses, pending).len(),
        promoted_from(statuses, pending, k, a),
        promoted_from(statuses, pending, l, b),
    ensures
        0 <= a <= b < statuses.len(),
        k < l ==> a < b,
        statuses[a].instance_id is Some,
        statuses[b].instance_id is Some,
        promoted(statuses, pending)[k].instance_id == statuses[a].instance_id.unwrap(),
        promoted(statuses, pending)[l].instance_id == statuses[b].instance_id.unwrap(),
    decreases statuses.len(),
{
    let s = statuses.first();
    let rest = statuses.drop_first();
    if is_fulfilled(s) && has_request(pending, s.request_id@) {
        let left = pending.remove(request_index(pending, s.request_id@));
        if k == 0 {
            if l > 0 {
                lemma_promoted_in_order(rest, left, l - 1, l - 1, b - 1, b - 1);
            }
        } else {
            lemma_promoted_in_order(rest, left, k - 1, l - 1, a - 1, b - 1);
        }
    } else {
        lemma_promoted_in_order(rest, pending, k, l, a - 1, b - 1);
    }
}

/// The reachable records are exactly the records that have their address:
/// each of them is a record with an address, and no record with an address is
/// missing among them.
pub proof fn lemma_reachable_are_the_addressed<S>(instances: Seq<InstanceRecord<S>>)
    ensures
        reachable(instances).len() <= instances.len(),
        forall|k: int|
            0 <= k < reachable(instances).len() ==> (#[trigger] reachable(instances)[k]).address
                is Some && instances.contains(reachable(instances)[k]),
        forall|i: int|
            0 <= i < instances.len() && (#[trigger] instances[i]).address is Some ==> reachable(
                instances,
            ).contains(instances[i]),
    decreases instances.len(),
{
    if instances.len() > 0 {
        let front = instances.drop_last();
        let last = instances.last();
        lemma_reachable_are_the_addressed(front);
        let rest = reachable(front);
        let all = reachable(instances);
        assert forall|k: int| 0 <= k < all.len() implies (#[trigger] all[k]).address is Some
            && instances.contains(all[k]) by {
            if k < rest.len() {
                assert(all[k] == rest[k]);
                let i = choose|i: int| 0 <= i < front.len() && front[i] == rest[k];
                assert(instances[i] == rest[k]);
            } else {
                assert(all[k] == last);
                assert(instances[instances.len() - 1] == last);
            }
        }
        assert forall|i: int|
            0 <= i < instances.len() && (#[trigger] instances[i]).address is Some implies all.contains(
            instances[i],
        ) by {
            if i < front.len() {
                assert(front[i] == instances[i]);
                let k = choose|k: int| 0 <= k < rest.len() && rest[k] == front[i];
                assert(all[k] == instances[i]);
            } else {
                assert(all[all.len() - 1] == instances[i]);
            }
        }
    }
}

/// Once every instance has its address, none is left out of the
/// connections.
pub proof fn lemma_all_reachable<S>(instances: Seq<InstanceRecord<S>>)
    requires
        all_addressed(instances),
    ensures
        reachable(instances) == instances,
    decreases instances.len(),
{
    if instances.len() > 0 {
        let front = instances.drop_last();
        assert forall|i: int| 0 <= i < front.len() implies (#[trigger] front[i]).address
            is Some by {
            assert(front[i] == instances[i]);
        }
        lemma_all_reachable(front);
        assert(front.push(instances.last()) == instances);
    } else {
        assert(instances == Seq::<InstanceRecord<S>>::empty());
    }
}

/// An instance is brought up once: after its address is recorded, the same
/// report finds no record of that instance left to bring up, as long as no
/// two records are for the same instance.
pub proof fn lemma_brought_up_once<S>(
    instances: Seq<InstanceRecord<S>>,
    id: Seq<char>,
    p: int,
    ip: String,
    dns: String,
)
    requires
        is_first_awaiting(instances, id, p),
        distinct_instances(instances),
    ensures
        !awaits_address(instances.update(p, with_address(instances[p], ip, dns)), id),
{
    let after = instances.update(p, with_address(instances[p], ip, dns));
    assert forall|q: int| !#[trigger] awaits_address_at(after, id, q) by {
        if 0 <= q < after.len() && q != p {
            if q < p {
                assert(instances[q].instance_id@ != instances[p].instance_id@);
            } else {
                assert(instances[p].instance_id@ != instances[q].instance_id@);
            }
        }
    }
}

/// A context that holds nothing has nothing to release: teardown of it
/// names no instance, no security group and no key pair.
pub proof fn lemma_torn_down_releases_nothing<S>(ctx: AWSRegion<S>)
    requires
        ctx.is_torn_down(),
    ensures
        instance_ids(ctx.instances@).len() == 0,
        ctx.group_to_delete() is None,
        ctx.key_to_delete() is None,
{
}

/// Where every status is fulfilled and answers the outstanding request at
/// its own position, every request becomes an instance record, in order,
/// under the nickname and descriptor it was made for.
pub proof fn lemma_all_fulfilled<S>(statuses: Seq<SpotStatus>, pending: Seq<PendingRequest<S>>)
    requires
        statuses.len() == pending.len(),
        forall|i: int|
            0 <= i < statuses.len() ==> is_fulfilled(#[trigger] statuses[i])
                && statuses[i].request_id@ == pending[i].request_id@,
        distinct_requests(pending),
    ensures
        promoted(statuses, pending).len() == pending.len(),
        forall|i: int|
            0 <= i < pending.len() ==> #[trigger] promoted(statuses, pending)[i]
                == fulfilled_record(statuses[i].instance_id.unwrap(), pending[i]),
    decreases statuses.len(),
{
    if statuses.len() > 0 {
        let s = statuses.first();
        assert(is_fulfilled(statuses[0]));
        assert(is_first_request(pending, s.request_id@, 0));
        assert(has_request(pending, s.request_id@));
        let p = request_index(pending, s.request_id@);
        assert(p == 0);
        let rest = statuses.drop_first();
        let left = pending.remove(0);
        assert forall|i: int| 0 <= i < rest.len() implies is_fulfilled(#[trigger] rest[i])
            && rest[i].request_id@ == left[i].request_id@ by {
            assert(is_fulfilled(statuses[i + 1]));
        }
        lemma_all_fulfilled(rest, left);
        let out = promoted(statuses, pending);
        assert(out == seq![fulfilled_record(s.instance_id.unwrap(), pending[0])] + promoted(
            rest,
            left,
        ));
        assert forall|i: int| 0 <= i < pending.len() implies #[trigger] out[i] == fulfilled_record(
            statuses[i].instance_id.unwrap(),
            pending[i],
        ) by {
            if i > 0 {
                assert(out[i] == promoted(rest, left)[i - 1]);
                assert(rest[i - 1] == statuses[i]);
                assert(left[i - 1] == pending[i]);
            }
        }
    }
}

/// Every record that resolving the statuses gives stands for a fulfilled
/// status: no instance is tracked for a request that failed.
pub proof fn lemma_promoted_are_fulfilled<S>(
    statuses: Seq<SpotStatus>,
    pending: Seq<PendingRequest<S>>,
    k: int,
)
    requires
        0 <= k < promoted(statuses, pending).len(),
    ensures
        promoted(statuses, pending)[k].address is None,
        exists|i: int|
            0 <= i < statuses.len() && is_fulfilled(#[trigger] statuses[i]) && promoted(
                statuses,
                pending,
            )[k].instance_id == statuses[i].instance_id.unwrap(),
    decreases statuses.len(),
{
    let s = statuses.first();
    let rest = statuses.drop_first();
    if is_fulfilled(s) && has_request(pending, s.request_id@) {
        let p = request_index(pending, s.request_id@);
        if k == 0 {
            assert(is_fulfilled(statuses[0]));
        } else {
            lemma_promoted_are_fulfilled(rest, pending.remove(p), k - 1);
            let i = choose|i: int|
                0 <= i < rest.len() && is_fulfilled(#[trigger] rest[i]) && promoted(
                    rest,
                    pending.remove(p),
                )[k - 1].instance_id == rest[i].instance_id.unwrap();
            assert(statuses[i + 1] == rest[i]);
        }
    } else {
        lemma_promoted_are_fulfilled(rest, pending, k);
        let i = choose|i: int|
            0 <= i < rest.len() && is_fulfilled(#[trigger] rest[i]) && promoted(rest, pending)[k].instance_id
                == rest[i].instance_id.unwrap();
        assert(statuses[i + 1] == rest[i]);
    }
}

/// The longest that a spot instance with a defined duration can run, in
/// hours.
pub const MAX_DURATION_HOURS: i64 = 6;

/// AWS EC2 spot instance launcher. Each region it launches into is handled
/// by an [`AWSRegion`].
#[derive(Debug, Clone)]
pub struct AWSLauncher<S> {
    /// How long instances may run, in hours; at most six.
    pub max_instance_duration_hours: i64,
    /// The contexts that came up so far, in the order of their launches, each
    /// under the name of its region. A region that was launched into twice
    /// has two.
    pub regions: Vec<(String, AWSRegion<S>)>,
}

/// The duration of a spot request in minutes for a limit in hours: never over
/// six hours, and held at the least value that fits where the product does
/// not.
pub open spec fn duration_minutes(hours: i64) -> int {
    if hours * 60 >= 360 {
        360
    } else if hours * 60 < i64::MIN {
        i64::MIN as int
    } else {
        hours * 60
    }
}

/// The connection entries of all `regions`, one context after another:
/// those of the instances that have their address.
pub open spec fn all_connections<S>(regions: Seq<(String, AWSRegion<S>)>) -> Seq<(String, Machine)>
    decreases regions.len(),
{
    if regions.len() == 0 {
        Seq::empty()
    } else {
        all_connections(regions.drop_last()) + connections(
            reachable(regions.last().1.instances@),
        )
    }
}

impl<S> Default for AWSLauncher<S> {
    /// A launcher with the longest duration and no region.
    fn default() -> (l: Self)
        ensures
            l.max_instance_duration_hours == MAX_DURATION_HOURS,
            l.regions@.len() == 0,
    {
        AWSLauncher { max_instance_duration_hours: MAX_DURATION_HOURS, regions: Vec::new() }
    }
}

impl<S> AWSLauncher<S> {
    /// Sets how long instances may run, in hours. Spot instances with a
    /// defined duration run for six hours at most: a longer limit is cut to
    /// six.
    pub fn set_max_instance_duration(&mut self, t: i64)
        ensures
            final(self).max_instance_duration_hours == if t > MAX_DURATION_HOURS {
                MAX_DURATION_HOURS
            } else {
                t
            },
            final(self).regions == old(self).regions,
    {
        self.max_instance_duration_hours = if t > MAX_DURATION_HOURS {
            MAX_DURATION_HOURS
        } else {
            t
        };
    }

    /// The duration to put on spot requests, in minutes.
    pub fn spot_duration_minutes(&self) -> (minutes: i64)
        ensures
            minutes == duration_minutes(self.max_instance_duration_hours),
    {
        if self.max_instance_duration_hours >= MAX_DURATION_HOURS {
            360
        } else if self.max_instance_duration_hours < i64::MIN / 60 {
            i64::MIN
        } else {
            self.max_instance_duration_hours * 60
        }
    }

    /// Takes the outcome of one launch into `region`. A failed launch is
    /// handed back as it is and leaves the launcher untouched: what was
    /// launched before stays as it is, and stays connectable. A context that
    /// came up is added to those that are there, also where the region was
    /// launched into before: the machines of earlier launches stay.
    pub fn launch(&mut self, region: String, outcome: Result<AWSRegion<S>, Error>) -> (r: Result<
        (),
        Error,
    >)
        ensures
            final(self).max_instance_duration_hours == old(self).max_instance_duration_hours,
            match outcome {
                Err(e) => r == Err::<(), Error>(e) && *final(self) == *old(self),
                Ok(ctx) => r is Ok && final(self).regions@ == old(self).regions@.push(
                    (region, ctx),
                ),
            },
    {
        match outcome {
            Err(e) => Err(e),
            Ok(ctx) => {
                self.regions.push((region, ctx));
                Ok(())
            },
        }
    }

    /// Where to connect to, over all contexts: every instance that has its
    /// address. Fails where two of them carry one nickname.
    pub fn connect_all(&self) -> (r: Result<Vec<(String, Machine)>, Error>)
        ensures
            crate::providers::unique_nicknames(all_connections(self.regions@)) ==> (
            r matches Ok(ms) && ms@ == all_connections(self.regions@)),
            !crate::providers::unique_nicknames(all_connections(self.regions@))
                ==> crate::providers::is_duplicate_error(all_connections(self.regions@), r),
    {
        let mut lists: Vec<Vec<(String, Machine)>> = Vec::new();
        let mut i: usize = 0;
        while i < self.regions.len()
            invariant
                i <= self.regions@.len(),
                crate::providers::concat_all(lists@) == all_connections(
                    self.regions@.take(i as int),
                ),
            decreases self.regions@.len() - i,
        {
            match self.regions[i].1.connect_all() {
                Ok(ms) => {
                    let ghost before = lists@;
                    lists.push(ms);
                    assert(lists@.drop_last() == before);
                    assert(self.regions@.take(i + 1).drop_last() == self.regions@.take(i as int));
                },
                Err(e) => {
                    return Err(e);
                },
            }
            i += 1;
        }
        assert(self.regions@.take(i as int) == self.regions@);
        crate::providers::merge(lists)
    }
}

} // verus!
