//! Virtual machines on Azure, driven through the `az` command line tool.
//!
//! Every step is one command that runs to completion; this module builds the
//! commands and reads their outcome. The resource group is the unit of
//! cleanup: deleting it removes every machine created in it.
use crate::error::{Error, Operation};
use crate::providers::{merge, rand_name, rand_name_sep, LaunchDescriptor};
use crate::text::same;
use crate::Machine;
use vstd::prelude::*;
use vstd::string::*;

verus! {

/// The regions of Azure.
#[derive(Clone, Copy, Debug, PartialEq, Eq, Hash, Structural)]
pub enum Region {
    EastUs,
    EastUs2,
    WestUs,
    CentralUs,
    NorthCentralUs,
    SouthCentralUs,
    NorthEurope,
    WestEurope,
    EastUsia,
    SouthEastUsia,
    JapanEast,
    JapanWest,
    AustraliaEast,
    AustraliaSoutheast,
    AustraliaCentral,
    BrazilSouth,
    SouthIndia,
    CentralIndia,
    WestIndia,
    CanadaCentral,
    CanadaEast,
    WestUs2,
    WestCentralus,
    UkSouth,
    UkWest,
    KoreaCentral,
    KoreaSouth,
    FranceCentral,
    SouthAfricaNorth,
    UaeNorth,
    GermanyWestCentral,
}

/// The name by which the command line tool knows a region.
pub open spec fn region_name(r: Region) -> Seq<char> {
    match r {
        Region::EastUs => "eastus"@,
        Region::EastUs2 => "eastus2"@,
        Region::WestUs => "westus"@,
        Region::CentralUs => "centralus"@,
        Region::NorthCentralUs => "northcentralus"@,
        Region::SouthCentralUs => "southcentralus"@,
        Region::NorthEurope => "northeurope"@,
        Region::WestEurope => "westeurope"@,
        Region::EastUsia => "eastasia"@,
        Region::SouthEastUsia => "southeastasia"@,
        Region::JapanEast => "japaneast"@,
        Region::JapanWest => "japanwest"@,
        Region::AustraliaEast => "australiaeast"@,
        Region::AustraliaSoutheast => "australiasoutheast"@,
        Region::AustraliaCentral => "australiacentral"@,
        Region::BrazilSouth => "brazilsouth"@,
        Region::SouthIndia => "southindia"@,
        Region::CentralIndia => "centralindia"@,
        Region::WestIndia => "westindia"@,
        Region::CanadaCentral => "canadacentral"@,
        Region::CanadaEast => "canadaeast"@,
        Region::WestUs2 => "westus2"@,
        Region::WestCentralus => "westcentralus"@,
        Region::UkSouth => "uksouth"@,
        Region::UkWest => "ukwest"@,
        Region::KoreaCentral => "koreacentral"@,
        Region::KoreaSouth => "koreasouth"@,
        Region::FranceCentral => "francecentral"@,
        Region::SouthAfricaNorth => "southafricanorth"@,
        Region::UaeNorth => "uaenorth"@,
        Region::GermanyWestCentral => "germanywestcentral"@,
    }
}

impl Default for Region {
    fn default() -> (r: Self)
        ensures
            r == Region::EastUs,
    {
        Region::EastUs
    }
}

impl Region {
    /// The name of the region.
    pub fn to_string(&self) -> (s: String)
        ensures
            s@ == region_name(*self),
    {
        let name = match self {
            Region::EastUs => "eastus",
            Region::EastUs2 => "eastus2",
            Region::WestUs => "westus",
            Region::CentralUs => "centralus",
            Region::NorthCentralUs => "northcentralus",
            Region::SouthCentralUs => "southcentralus",
            Region::NorthEurope => "northeurope",
            Region::WestEurope => "westeurope",
            Region::EastUsia => "eastasia",
            Region::SouthEastUsia => "southeastasia",
            Region::JapanEast => "japaneast",
            Region::JapanWest => "japanwest",
            Region::AustraliaEast => "australiaeast",
            Region::AustraliaSoutheast => "australiasoutheast",
            Region::AustraliaCentral => "australiacentral",
            Region::BrazilSouth => "brazilsouth",
            Region::SouthIndia => "southindia",
            Region::CentralIndia => "centralindia",
            Region::WestIndia => "westindia",
            Region::CanadaCentral => "canadacentral",
            Region::CanadaEast => "canadaeast",
            Region::WestUs2 => "westus2",
            Region::WestCentralus => "westcentralus",
            Region::UkSouth => "uksouth",
            Region::UkWest => "ukwest",
            Region::KoreaCentral => "koreacentral",
            Region::KoreaSouth => "koreasouth",
            Region::FranceCentral => "francecentral",
            Region::SouthAfricaNorth => "southafricanorth",
            Region::UaeNorth => "uaenorth",
            Region::GermanyWestCentral => "germanywestcentral",
        };
        String::from_str(name)
    }

    /// The region with the name `s`. A name that no region has is a
    /// configuration error.
    pub fn from_str(s: &str) -> (r: Result<Region, Error>)
        ensures
            match r {
                Ok(region) => region_name(region) == s@,
                Err(e) => (e matches Error::UnsupportedRegion { region: named } && named@ == s@)
                    && forall|x: Region| region_name(x) != s@,
            },
    {
        if same(s, "eastus") {
            Ok(Region::EastUs)
        } else if same(s, "eastus2") {
            Ok(Region::EastUs2)
        } else if same(s, "westus") {
            Ok(Region::WestUs)
        } else if same(s, "centralus") {
            Ok(Region::CentralUs)
        } else if same(s, "northcentralus") {
            Ok(Region::NorthCentralUs)
        } else if same(s, "southcentralus") {
            Ok(Region::SouthCentralUs)
        } else if same(s, "northeurope") {
            Ok(Region::NorthEurope)
        } else if same(s, "westeurope") {
            Ok(Region::WestEurope)
        } else if same(s, "eastasia") {
            Ok(Region::EastUsia)
        } else if same(s, "southeastasia") {
            Ok(Region::SouthEastUsia)
        } else if same(s, "japaneast") {
            Ok(Region::JapanEast)
        } else if same(s, "japanwest") {
            Ok(Region::JapanWest)
        } else if same(s, "australiaeast") {
            Ok(Region::AustraliaEast)
        } else if same(s, "australiasoutheast") {
            Ok(Region::AustraliaSoutheast)
        } else if same(s, "australiacentral") {
            Ok(Region::AustraliaCentral)
        } else if same(s, "brazilsouth") {
            Ok(Region::BrazilSouth)
        } else if same(s, "southindia") {
            Ok(Region::SouthIndia)
        } else if same(s, "centralindia") {
            Ok(Region::CentralIndia)
        } else if same(s, "westindia") {
            Ok(Region::WestIndia)
        } else if same(s, "canadacentral") {
            Ok(Region::CanadaCentral)
        } else if same(s, "canadaeast") {
            Ok(Region::CanadaEast)
        } else if same(s, "westus2") {
            Ok(Region::WestUs2)
        } else if same(s, "westcentralus") {
            Ok(Region::WestCentralus)
        } else if same(s, "uksouth") {
            Ok(Region::UkSouth)
        } else if same(s, "ukwest") {
            Ok(Region::UkWest)
        } else if same(s, "koreacentral") {
            Ok(Region::KoreaCentral)
        } else if same(s, "koreasouth") {
            Ok(Region::KoreaSouth)
        } else if same(s, "francecentral") {
            Ok(Region::FranceCentral)
        } else if same(s, "southafricanorth") {
            Ok(Region::SouthAfricaNorth)
        } else if same(s, "uaenorth") {
            Ok(Region::UaeNorth)
        } else if same(s, "germanywestcentral") {
            Ok(Region::GermanyWestCentral)
        } else {
            Err(Error::UnsupportedRegion { region: String::from_str(s) })
        }
    }
}

/// The length of a region's name.
spec fn region_name_len(r: Region) -> int {
    match r {
        Region::EastUs => 6,
        Region::EastUs2 => 7,
        Region::WestUs => 6,
        Region::CentralUs => 9,
        Region::NorthCentralUs => 14,
        Region::SouthCentralUs => 14,
        Region::NorthEurope => 11,
        Region::WestEurope => 10,
        Region::EastUsia => 8,
        Region::SouthEastUsia => 13,
        Region::JapanEast => 9,
        Region::JapanWest => 9,
        Region::AustraliaEast => 13,
        Region::AustraliaSoutheast => 18,
        Region::AustraliaCentral => 16,
        Region::BrazilSouth => 11,
        Region::SouthIndia => 10,
        Region::CentralIndia => 12,
        Region::WestIndia => 9,
        Region::CanadaCentral => 13,
        Region::CanadaEast => 10,
        Region::WestUs2 => 7,
        Region::WestCentralus => 13,
        Region::UkSouth => 7,
        Region::UkWest => 6,
        Region::KoreaCentral => 12,
        Region::KoreaSouth => 10,
        Region::FranceCentral => 13,
        Region::SouthAfricaNorth => 16,
        Region::UaeNorth => 8,
        Region::GermanyWestCentral => 18,
    }
}

/// The character at position 0 of a region's name.
spec fn region_name_char_0(r: Region) -> char {
    match r {
        Region::EastUs => 'e',
        Region::EastUs2 => 'e',
        Region::WestUs => 'w',
        Region::CentralUs => 'c',
        Region::NorthCentralUs => 'n',
        Region::SouthCentralUs => 's',
        Region::NorthEurope => 'n',
        Region::WestEurope => 'w',
        Region::EastUsia => 'e',
        Region::SouthEastUsia => 's',
        Region::JapanEast => 'j',
        Region::JapanWest => 'j',
        Region::AustraliaEast => 'a',
        Region::AustraliaSoutheast => 'a',
        Region::AustraliaCentral => 'a',
        Region::BrazilSouth => 'b',
        Region::SouthIndia => 's',
        Region::CentralIndia => 'c',
        Region::WestIndia => 'w',
        Region::CanadaCentral => 'c',
        Region::CanadaEast => 'c',
        Region::WestUs2 => 'w',
        Region::WestCentralus => 'w',
        Region::UkSouth => 'u',
        Region::UkWest => 'u',
        Region::KoreaCentral => 'k',
        Region::KoreaSouth => 'k',
        Region::FranceCentral => 'f',
        Region::SouthAfricaNorth => 's',
        Region::UaeNorth => 'u',
        Region::GermanyWestCentral => 'g',
    }
}

/// The character at position 5 of a region's name.
spec fn region_name_char_5(r: Region) -> char {
    match r {
        Region::EastUs => 's',
        Region::EastUs2 => 's',
        Region::WestUs => 's',
        Region::CentralUs => 'a',
        Region::NorthCentralUs => 'c',
        Region::SouthCentralUs => 'c',
        Region::NorthEurope => 'e',
        Region::WestEurope => 'u',
        Region::EastUsia => 's',
        Region::SouthEastUsia => 'e',
        Region::JapanEast => 'e',
        Region::JapanWest => 'w',
        Region::AustraliaEast => 'a',
        Region::AustraliaSoutheast => 'a',
        Region::AustraliaCentral => 'a',
        Region::BrazilSouth => 'l',
        Region::SouthIndia => 'i',
        Region::CentralIndia => 'a',
        Region::WestIndia => 'n',
        Region::CanadaCentral => 'a',
        Region::CanadaEast => 'a',
        Region::WestUs2 => 's',
        Region::WestCentralus => 'e',
        Region::UkSouth => 't',
        Region::UkWest => 't',
        Region::KoreaCentral => 'c',
        Region::KoreaSouth => 's',
        Region::FranceCentral => 'e',
        Region::SouthAfricaNorth => 'a',
        Region::UaeNorth => 'r',
        Region::GermanyWestCentral => 'n',
    }
}

proof fn lemma_region_name_shape(r: Region)
    ensures
        region_name(r).len() == region_name_len(r),
        region_name(r)[0] == region_name_char_0(r),
        region_name(r)[5] == region_name_char_5(r),
{
    match r {
        Region::EastUs => {
            reveal_strlit("eastus");
            assert("eastus"@.len() == 6);
            assert("eastus"@[0] == 'e');
            assert("eastus"@[5] == 's');
        },
        Region::EastUs2 => {
            reveal_strlit("eastus2");
            assert("eastus2"@.len() == 7);
            assert("eastus2"@[0] == 'e');
            assert("eastus2"@[5] == 's');
        },
        Region::WestUs => {
            reveal_strlit("westus");
            assert("westus"@.len() == 6);
            assert("westus"@[0] == 'w');
            assert("westus"@[5] == 's');
        },
        Region::CentralUs => {
            reveal_strlit("centralus");
            assert("centralus"@.len() == 9);
            assert("centralus"@[0] == 'c');
            assert("centralus"@[5] == 'a');
        },
        Region::NorthCentralUs => {
            reveal_strlit("northcentralus");
            assert("northcentralus"@.len() == 14);
            assert("northcentralus"@[0] == 'n');
            assert("northcentralus"@[5] == 'c');
        },
        Region::SouthCentralUs => {
            reveal_strlit("southcentralus");
            assert("southcentralus"@.len() == 14);
            assert("southcentralus"@[0] == 's');
            assert("southcentralus"@[5] == 'c');
        },
        Region::NorthEurope => {
            reveal_strlit("northeurope");
            assert("northeurope"@.len() == 11);
            assert("northeurope"@[0] == 'n');
            assert("northeurope"@[5] == 'e');
        },
        Region::WestEurope => {
            reveal_strlit("westeurope");
            assert("westeurope"@.len() == 10);
            assert("westeurope"@[0] == 'w');
            assert("westeurope"@[5] == 'u');
        },
        Region::EastUsia => {
            reveal_strlit("eastasia");
            assert("eastasia"@.len() == 8);
            assert("eastasia"@[0] == 'e');
            assert("eastasia"@[5] == 's');
        },
        Region::SouthEastUsia => {
            reveal_strlit("southeastasia");
            assert("southeastasia"@.len() == 13);
            assert("southeastasia"@[0] == 's');
            assert("southeastasia"@[5] == 'e');
        },
        Region::JapanEast => {
            reveal_strlit("japaneast");
            assert("japaneast"@.len() == 9);
            assert("japaneast"@[0] == 'j');
            assert("japaneast"@[5] == 'e');
        },
        Region::JapanWest => {
            reveal_strlit("japanwest");
            assert("japanwest"@.len() == 9);
            assert("japanwest"@[0] == 'j');
            assert("japanwest"@[5] == 'w');
        },
        Region::AustraliaEast => {
            reveal_strlit("australiaeast");
            assert("australiaeast"@.len() == 13);
            assert("australiaeast"@[0] == 'a');
            assert("australiaeast"@[5] == 'a');
        },
        Region::AustraliaSoutheast => {
            reveal_strlit("australiasoutheast");
            assert("australiasoutheast"@.len() == 18);
            assert("australiasoutheast"@[0] == 'a');
            assert("australiasoutheast"@[5] == 'a');
        },
        Region::AustraliaCentral => {
            reveal_strlit("australiacentral");
            assert("australiacentral"@.len() == 16);
            assert("australiacentral"@[0] == 'a');
            assert("australiacentral"@[5] == 'a');
        },
        Region::BrazilSouth => {
            reveal_strlit("brazilsouth");
            assert("brazilsouth"@.len() == 11);
            assert("brazilsouth"@[0] == 'b');
            assert("brazilsouth"@[5] == 'l');
        },
        Region::SouthIndia => {
            reveal_strlit("southindia");
            assert("southindia"@.len() == 10);
            assert("southindia"@[0] == 's');
            assert("southindia"@[5] == 'i');
        },
        Region::CentralIndia => {
            reveal_strlit("centralindia");
            assert("centralindia"@.len() == 12);
            assert("centralindia"@[0] == 'c');
            assert("centralindia"@[5] == 'a');
        },
        Region::WestIndia => {
            reveal_strlit("westindia");
            assert("westindia"@.len() == 9);
            assert("westindia"@[0] == 'w');
            assert("westindia"@[5] == 'n');
        },
        Region::CanadaCentral => {
            reveal_strlit("canadacentral");
            assert("canadacentral"@.len() == 13);
            assert("canadacentral"@[0] == 'c');
            assert("canadacentral"@[5] == 'a');
        },
        Region::CanadaEast => {
            reveal_strlit("canadaeast");
            assert("canadaeast"@.len() == 10);
            assert("canadaeast"@[0] == 'c');
            assert("canadaeast"@[5] == 'a');
        },
        Region::WestUs2 => {
            reveal_strlit("westus2");
            assert("westus2"@.len() == 7);
            assert("westus2"@[0] == 'w');
            assert("westus2"@[5] == 's');
        },
        Region::WestCentralus => {
            reveal_strlit("westcentralus");
            assert("westcentralus"@.len() == 13);
            assert("westcentralus"@[0] == 'w');
            assert("westcentralus"@[5] == 'e');
        },
        Region::UkSouth => {
            reveal_strlit("uksouth");
            assert("uksouth"@.len() == 7);
            assert("uksouth"@[0] == 'u');
            assert("uksouth"@[5] == 't');
        },
        Region::UkWest => {
            reveal_strlit("ukwest");
            assert("ukwest"@.len() == 6);
            assert("ukwest"@[0] == 'u');
            assert("ukwest"@[5] == 't');
        },
        Region::KoreaCentral => {
            reveal_strlit("koreacentral");
            assert("koreacentral"@.len() == 12);
            assert("koreacentral"@[0] == 'k');
            assert("koreacentral"@[5] == 'c');
        },
        Region::KoreaSouth => {
            reveal_strlit("koreasouth");
            assert("koreasouth"@.len() == 10);
            assert("koreasouth"@[0] == 'k');
            assert("koreasouth"@[5] == 's');
        },
        Region::FranceCentral => {
            reveal_strlit("francecentral");
            assert("francecentral"@.len() == 13);
            assert("francecentral"@[0] == 'f');
            assert("francecentral"@[5] == 'e');
        },
        Region::SouthAfricaNorth => {
            reveal_strlit("southafricanorth");
            assert("southafricanorth"@.len() == 16);
            assert("southafricanorth"@[0] == 's');
            assert("southafricanorth"@[5] == 'a');
        },
        Region::UaeNorth => {
            reveal_strlit("uaenorth");
            assert("uaenorth"@.len() == 8);
            assert("uaenorth"@[0] == 'u');
            assert("uaenorth"@[5] == 'r');
        },
        Region::GermanyWestCentral => {
            reveal_strlit("germanywestcentral");
            assert("germanywestcentral"@.len() == 18);
            assert("germanywestcentral"@[0] == 'g');
            assert("germanywestcentral"@[5] == 'n');
        },
    }
}

/// Two different regions have different names, so a name stands for at most
/// one region and reading back a region's name gives that region.
pub proof fn lemma_region_names_differ(a: Region, b: Region)
    requires
        a != b,
    ensures
        region_name(a) != region_name(b),
{
    lemma_region_name_shape(a);
    lemma_region_name_shape(b);
}

/// The strings of `args` as contracts read them.
pub open spec fn arg_views(args: Seq<String>) -> Seq<Seq<char>> {
    Seq::new(args.len(), |i: int| args[i]@)
}

/// The arguments for `az` that list the instance sizes on offer in a region.
pub fn available_instances_args(r: Region) -> (args: Vec<String>)
    ensures
        arg_views(args@) == seq!["vm"@, "list-sizes"@, "-l"@, region_name(r)],
{
    let mut args: Vec<String> = Vec::new();
    args.push(String::from_str("vm"));
    args.push(String::from_str("list-sizes"));
    args.push(String::from_str("-l"));
    args.push(r.to_string());
    assert(arg_views(args@) =~= seq!["vm"@, "list-sizes"@, "-l"@, region_name(r)]);
    args
}

/// The arguments for `az` that create the resource group `name` in a
/// region.
pub fn create_resource_group_args(r: Region, name: &str) -> (args: Vec<String>)
    ensures
        arg_views(args@) == seq![
            "group"@,
            "create"@,
            "--name"@,
            name@,
            "--location"@,
            region_name(r),
        ],
{
    let mut args: Vec<String> = Vec::new();
    args.push(String::from_str("group"));
    args.push(String::from_str("create"));
    args.push(String::from_str("--name"));
    args.push(String::from_str(name));
    args.push(String::from_str("--location"));
    args.push(r.to_string());
    assert(arg_views(args@) =~= seq![
        "group"@,
        "create"@,
        "--name"@,
        name@,
        "--location"@,
        region_name(r),
    ]);
    args
}

/// The arguments for `az` that create an Ubuntu machine `name` of the given
/// size in the resource group `rg`, with the caller's public key installed
/// for `username`.
pub fn create_vm_args(rg: &str, name: &str, size: &str, username: &str) -> (args: Vec<String>)
    ensures
        arg_views(args@) == seq![
            "vm"@,
            "create"@,
            "--resource-group"@,
            rg@,
            "--name"@,
            name@,
            "--image"@,
            "UbuntuLTS"@,
            "--size"@,
            size@,
            "--admin-username"@,
            username@,
            "--ssh-key-value"@,
            "@~/.ssh/id_rsa.pub"@,
        ],
{
    let mut args: Vec<String> = Vec::new();
    args.push(String::from_str("vm"));
    args.push(String::from_str("create"));
    args.push(String::from_str("--resource-group"));
    args.push(String::from_str(rg));
    args.push(String::from_str("--name"));
    args.push(String::from_str(name));
    args.push(String::from_str("--image"));
    args.push(String::from_str("UbuntuLTS"));
    args.push(String::from_str("--size"));
    args.push(String::from_str(size));
    args.push(String::from_str("--admin-username"));
    args.push(String::from_str(username));
    args.push(String::from_str("--ssh-key-value"));
    args.push(String::from_str("@~/.ssh/id_rsa.pub"));
    assert(arg_views(args@) =~= seq![
        "vm"@,
        "create"@,
        "--resource-group"@,
        rg@,
        "--name"@,
        name@,
        "--image"@,
        "UbuntuLTS"@,
        "--size"@,
        size@,
        "--admin-username"@,
        username@,
        "--ssh-key-value"@,
        "@~/.ssh/id_rsa.pub"@,
    ]);
    args
}

/// The arguments for `az` that open every port of the machine `vm_name`.
pub fn open_ports_args(rg: &str, vm_name: &str) -> (args: Vec<String>)
    ensures
        arg_views(args@) == seq![
            "vm"@,
            "open-port"@,
            "--port"@,
            "0-65535"@,
            "--resource-group"@,
            rg@,
            "--name"@,
            vm_name@,
        ],
{
    let mut args: Vec<String> = Vec::new();
    args.push(String::from_str("vm"));
    args.push(String::from_str("open-port"));
    args.push(String::from_str("--port"));
    args.push(String::from_str("0-65535"));
    args.push(String::from_str("--resource-group"));
    args.push(String::from_str(rg));
    args.push(String::from_str("--name"));
    args.push(String::from_str(vm_name));
    assert(arg_views(args@) =~= seq![
        "vm"@,
        "open-port"@,
        "--port"@,
        "0-65535"@,
        "--resource-group"@,
        rg@,
        "--name"@,
        vm_name@,
    ]);
    args
}

/// The arguments for `az` that delete the resource group `rg` and with it
/// every machine in it.
pub fn delete_resource_group_args(rg: &str) -> (args: Vec<String>)
    ensures
        arg_views(args@) == seq!["group"@, "delete"@, "--name"@, rg@, "--yes"@],
{
    let mut args: Vec<String> = Vec::new();
    args.push(String::from_str("group"));
    args.push(String::from_str("delete"));
    args.push(String::from_str("--name"));
    args.push(String::from_str(rg));
    args.push(String::from_str("--yes"));
    assert(arg_views(args@) =~= seq!["group"@, "delete"@, "--name"@, rg@, "--yes"@]);
    args
}

/// Reads what `az vm create` reported of the new machine: it must be running
/// and in the resource group `rg`. Hands back its public IP address.
pub fn created_vm(power_state: &str, resource_group: &str, public_ip: String, rg: &str) -> (r: Result<
    String,
    Error,
>)
    ensures
        power_state@ == "VM running"@ && resource_group@ == rg@ ==> r == Ok::<String, Error>(
            public_ip,
        ),
        power_state@ != "VM running"@ ==> (r matches Err(Error::Provider { operation, cause })
            && operation == Operation::CreateVm && cause@ == "VM power state incorrect"@),
        power_state@ == "VM running"@ && resource_group@ != rg@ ==> (r matches Err(
            Error::Provider { operation, cause },
        ) && operation == Operation::CreateVm && cause@ == "VM resource group incorrect"@),
{
    if !same(power_state, "VM running") {
        Err(
            Error::Provider {
                operation: Operation::CreateVm,
                cause: String::from_str("VM power state incorrect"),
            },
        )
    } else if !same(resource_group, rg) {
        Err(
            Error::Provider {
                operation: Operation::CreateVm,
                cause: String::from_str("VM resource group incorrect"),
            },
        )
    } else {
        Ok(public_ip)
    }
}

/// A descriptor for a single Azure machine. Only Ubuntu machines are
/// supported. `S` is the setup procedure.
#[derive(Debug, Clone)]
pub struct Setup<S> {
    pub region: Region,
    pub instance_type: String,
    pub setup_fn: Option<S>,
}

impl<S> Default for Setup<S> {
    /// A `Standard_DS1_v2` in `eastus` with no setup.
    fn default() -> (d: Self)
        ensures
            d.region == Region::EastUs,
            d.instance_type@ == "Standard_DS1_v2"@,
            d.setup_fn is None,
    {
        Setup {
            region: Region::EastUs,
            instance_type: String::from_str("Standard_DS1_v2"),
            setup_fn: None,
        }
    }
}

impl<S> crate::providers::MachineSetup for Setup<S> {
    open spec fn region_key(&self) -> Seq<char> {
        region_name(self.region)
    }

    fn region(&self) -> (r: String) {
        self.region.to_string()
    }
}

/// `size` is one of the sizes in `available`.
pub open spec fn is_available(available: Seq<String>, size: Seq<char>) -> bool {
    exists|i: int| 0 <= i < available.len() && (#[trigger] available[i])@ == size
}

impl<S> Setup<S> {
    /// Moves the machine to the region `r`.
    pub fn region(self, r: Region) -> (d: Self)
        ensures
            d.region == r,
            d.instance_type == self.instance_type,
            d.setup_fn == self.setup_fn,
    {
        Setup { region: r, instance_type: self.instance_type, setup_fn: self.setup_fn }
    }

    /// Sets the instance size, which must be one of the sizes `available` in
    /// the machine's region (those that `az vm list-sizes` names).
    pub fn instance_type(self, inst_type: String, available: &Vec<String>) -> (r: Result<Self, Error>)
        ensures
            is_available(available@, inst_type@) ==> (r matches Ok(d) && d.instance_type
                == inst_type && d.region == self.region && d.setup_fn == self.setup_fn),
            !is_available(available@, inst_type@) ==> (r matches Err(
                Error::InvalidInstanceType { instance_type },
            ) && instance_type == inst_type),
    {
        let mut i: usize = 0;
        while i < available.len()
            invariant
                i <= available@.len(),
                forall|k: int| 0 <= k < i ==> (#[trigger] available@[k])@ != inst_type@,
            decreases available@.len() - i,
        {
            if same(available[i].as_str(), inst_type.as_str()) {
                return Ok(
                    Setup { region: self.region, instance_type: inst_type, setup_fn: self.setup_fn },
                );
            }
            i += 1;
        }
        Err(Error::InvalidInstanceType { instance_type: inst_type })
    }

    /// Sets the procedure that is run once on every spawned machine of this
    /// descriptor.
    pub fn setup(self, setup: S) -> (d: Self)
        ensures
            d.setup_fn == Some(setup),
            d.region == self.region,
            d.instance_type == self.instance_type,
    {
        Setup { region: self.region, instance_type: self.instance_type, setup_fn: Some(setup) }
    }
}

/// A machine that was created, by nickname and public IP address.
#[derive(Debug, Clone)]
pub struct Descriptor {
    pub name: String,
    pub ip: String,
}

/// What it takes to bring up one machine: the commands that create it and
/// open its ports, and whether a setup procedure is to follow.
#[derive(Debug, Clone)]
pub struct VmLaunch {
    pub nickname: String,
    pub vm_name: String,
    pub create: Vec<String>,
    pub open_ports: Vec<String>,
    pub run_setup: bool,
}

/// `vm` is what it takes to bring up the machine `nickname` described by
/// `desc` in the resource group `rg`: a fresh name, and the commands that
/// create the machine under it and open its ports.
pub open spec fn is_vm_launch<S>(vm: VmLaunch, rg: Seq<char>, nickname: Seq<char>, desc: Setup<S>) -> bool {
    &&& vm.nickname@ == nickname
    &&& crate::providers::is_generated_name(vm.vm_name@, "vm"@, "-"@)
    &&& arg_views(vm.create@) == seq![
        "vm"@,
        "create"@,
        "--resource-group"@,
        rg,
        "--name"@,
        vm.vm_name@,
        "--image"@,
        "UbuntuLTS"@,
        "--size"@,
        desc.instance_type@,
        "--admin-username"@,
        admin_username(),
        "--ssh-key-value"@,
        "@~/.ssh/id_rsa.pub"@,
    ]
    &&& arg_views(vm.open_ports@) == seq![
        "vm"@,
        "open-port"@,
        "--port"@,
        "0-65535"@,
        "--resource-group"@,
        rg,
        "--name"@,
        vm.vm_name@,
    ]
    &&& vm.run_setup == (desc.setup_fn is Some)
}

/// One region of Azure. Each context owns one resource group, which teardown
/// deletes.
#[derive(Debug, Clone)]
pub struct AzureRegion {
    pub region: Region,
    pub resource_group_name: String,
    pub machines: Vec<Descriptor>,
}

/// The connection entry of a created machine.
pub open spec fn connection_of(d: Descriptor) -> (String, Machine) {
    (d.name, Machine { nickname: d.name, public_dns: d.ip, public_ip: d.ip })
}

/// The user that machines are created for and connected to as.
pub open spec fn admin_username() -> Seq<char> {
    "ubuntu"@
}

impl AzureRegion {
    /// A context for the region named `region`, with a fresh name for its
    /// resource group and no machine. A name that no region has is a
    /// configuration error.
    pub fn new(region: &str) -> (r: Result<Self, Error>)
        ensures
            match r {
                Ok(ctx) => region_name(ctx.region) == region@ && ctx.machines@.len() == 0
                    && crate::providers::is_generated_name(
                    ctx.resource_group_name@,
                    "resourcegroup"@,
                    "_"@,
                ),
                Err(e) => (e matches Error::UnsupportedRegion { region: named } && named@
                    == region@) && forall|x: Region| region_name(x) != region@,
            },
    {
        let region = Region::from_str(region)?;
        Ok(
            AzureRegion {
                region,
                resource_group_name: rand_name("resourcegroup"),
                machines: Vec::new(),
            },
        )
    }

    /// The commands that bring up the machine `nickname`, under a fresh name.
    pub fn vm_launch<S>(&self, nickname: &str, desc: &Setup<S>) -> (vm: VmLaunch)
        ensures
            is_vm_launch(vm, self.resource_group_name@, nickname@, *desc),
    {
        let vm_name = rand_name_sep("vm", "-");
        let create = create_vm_args(
            self.resource_group_name.as_str(),
            vm_name.as_str(),
            desc.instance_type.as_str(),
            "ubuntu",
        );
        let open_ports = open_ports_args(self.resource_group_name.as_str(), vm_name.as_str());
        VmLaunch {
            nickname: String::from_str(nickname),
            vm_name,
            create,
            open_ports,
            run_setup: desc.setup_fn.is_some(),
        }
    }

    /// What it takes to bring up a batch: one entry per machine, in order. A
    /// batch without a machine is a configuration error.
    pub fn launch_plan<S>(&self, l: &LaunchDescriptor<Setup<S>>) -> (r: Result<Vec<VmLaunch>, Error>)
        ensures
            l.machines@.len() == 0 ==> r matches Err(Error::EmptyBatch),
            l.machines@.len() > 0 ==> (r matches Ok(plan) && plan@.len() == l.machines@.len()
                && forall|i: int|
                0 <= i < plan@.len() ==> is_vm_launch(
                    #[trigger] plan@[i],
                    self.resource_group_name@,
                    l.machines@[i].0@,
                    l.machines@[i].1,
                )),
    {
        if l.machines.len() == 0 {
            return Err(Error::EmptyBatch);
        }
        let mut plan: Vec<VmLaunch> = Vec::new();
        let mut i: usize = 0;
        while i < l.machines.len()
            invariant
                i <= l.machines@.len(),
                plan@.len() == i,
                forall|k: int|
                    0 <= k < i ==> is_vm_launch(
                        #[trigger] plan@[k],
                        self.resource_group_name@,
                        l.machines@[k].0@,
                        l.machines@[k].1,
                    ),
            decreases l.machines@.len() - i,
        {
            let vm = self.vm_launch(l.machines[i].0.as_str(), &l.machines[i].1);
            plan.push(vm);
            i += 1;
        }
        Ok(plan)
    }

    /// Takes the outcome of bringing up a batch. Machines are kept only
    /// where the whole batch came up: they are added to those that the
    /// context holds from earlier launches. A failure is handed back and
    /// changes nothing.
    pub fn launch(&mut self, outcome: Result<Vec<Descriptor>, Error>) -> (r: Result<(), Error>)
        ensures
            final(self).region == old(self).region,
            final(self).resource_group_name == old(self).resource_group_name,
            match outcome {
                Ok(machines) => r is Ok && final(self).machines@ == old(self).machines@
                    + machines@,
                Err(e) => r == Err::<(), Error>(e) && final(self).machines == old(self).machines,
            },
    {
        match outcome {
            Ok(machines) => {
                let mut machines = machines;
                self.machines.append(&mut machines);
                Ok(())
            },
            Err(e) => Err(e),
        }
    }

    /// Where to connect to: one entry per machine, under its nickname.
    pub fn connect_all(&self) -> (ms: Vec<(String, Machine)>)
        ensures
            ms@ == Seq::new(self.machines@.len(), |i: int| connection_of(self.machines@[i])),
    {
        let ghost goal = Seq::new(self.machines@.len(), |i: int| connection_of(self.machines@[i]));
        let mut ms: Vec<(String, Machine)> = Vec::new();
        let mut i: usize = 0;
        while i < self.machines.len()
            invariant
                i <= self.machines@.len(),
                goal == Seq::new(self.machines@.len(), |i: int| connection_of(self.machines@[i])),
                ms@ == goal.take(i as int),
            decreases self.machines@.len() - i,
        {
            let d = &self.machines[i];
            ms.push(
                (
                    d.name.clone(),
                    Machine {
                        nickname: d.name.clone(),
                        public_dns: d.ip.clone(),
                        public_ip: d.ip.clone(),
                    },
                ),
            );
            assert(goal.take(i + 1) == goal.take(i as int).push(goal[i as int]));
            i += 1;
        }
        assert(goal.take(i as int) == goal);
        ms
    }

    /// The command that releases everything this context has created.
    pub fn cleanup(&self) -> (args: Vec<String>)
        ensures
            arg_views(args@) == seq![
                "group"@,
                "delete"@,
                "--name"@,
                self.resource_group_name@,
                "--yes"@,
            ],
    {
        delete_resource_group_args(self.resource_group_name.as_str())
    }
}

/// The launcher for Azure. It relies on the `az` command line tool, logged in
/// beforehand; each region it launches into is handled by an
/// [`AzureRegion`].
#[derive(Debug, Clone)]
pub struct AzureLauncher {
    /// The contexts that came up so far, in the order of their launches, each
    /// under its region. A region that was launched into twice has two.
    pub regions: Vec<(Region, AzureRegion)>,
}

/// The connection entries of all `regions`, one context after another.
pub open spec fn all_connections(regions: Seq<(Region, AzureRegion)>) -> Seq<(String, Machine)>
    decreases regions.len(),
{
    if regions.len() == 0 {
        Seq::empty()
    } else {
        all_connections(regions.drop_last()) + Seq::new(
            regions.last().1.machines@.len(),
            |i: int| connection_of(regions.last().1.machines@[i]),
        )
    }
}

impl Default for AzureLauncher {
    /// A launcher with no region.
    fn default() -> (l: Self)
        ensures
            l.regions@.len() == 0,
    {
        AzureLauncher { regions: Vec::new() }
    }
}

impl AzureLauncher {
    /// Takes the outcome of one launch into `region`. A failed launch is
    /// handed back as it is and leaves the launcher untouched. A context
    /// that came up is added to those that are there, also where the region
    /// was launched into before: the machines of earlier launches stay.
    pub fn launch(&mut self, region: Region, outcome: Result<AzureRegion, Error>) -> (r: Result<
        (),
        Error,
    >)
        ensures
            match outcome {
                Err(e) => r == Err::<(), Error>(e) && *final(self) == *old(self),
                Ok(ctx) => r is Ok && final(self).regions@ == old(self).regions@.push(
                    (region, ctx),
                ),
            },
    {
        match outcome {
            Err(e) => Err(e),
            Ok(ctx) => {
                self.regions.push((region, ctx));
                Ok(())
            },
        }
    }

    /// Where to connect to, over all regions. Fails where two machines carry
    /// one nickname.
    pub fn connect_all(&self) -> (r: Result<Vec<(String, Machine)>, Error>)
        ensures
            crate::providers::unique_nicknames(all_connections(self.regions@)) ==> (
            r matches Ok(ms) && ms@ == all_connections(self.regions@)),
            !crate::providers::unique_nicknames(all_connections(self.regions@))
                ==> crate::providers::is_duplicate_error(all_connections(self.regions@), r),
    {
        let mut lists: Vec<Vec<(String, Machine)>> = Vec::new();
        let mut i: usize = 0;
        while i < self.regions.len()
            invariant
                i <= self.regions@.len(),
                crate::providers::concat_all(lists@) == all_connections(
                    self.regions@.take(i as int),
                ),
            decreases self.regions@.len() - i,
        {
            let ms = self.regions[i].1.connect_all();
            let ghost before = lists@;
            lists.push(ms);
            assert(lists@.drop_last() == before);
            assert(self.regions@.take(i + 1).drop_last() == self.regions@.take(i as int));
            i += 1;
        }
        assert(self.regions@.take(i as int) == self.regions@);
        merge(lists)
    }
}

} // verus!
