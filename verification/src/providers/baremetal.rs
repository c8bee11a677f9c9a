//! A single machine that exists already. Nothing is provisioned and nothing
//! is torn down: launching means finding the first of its addresses that
//! accepts an SSH connection.
use crate::error::Error;
use crate::providers::LaunchDescriptor;
use crate::Machine as Connection;
use vstd::prelude::*;
use vstd::string::*;

verus! {

/// A socket address of the machine: how it is written, and its IP address
/// alone.
#[derive(Debug, Clone)]
pub struct SocketAddress {
    pub display: String,
    pub ip: String,
}

/// Descriptor for a single, existing machine to connect to. Each descriptor
/// stands for one machine, so its region is the machine's address. `S` is
/// the setup procedure.
#[derive(Debug, Clone)]
pub struct Setup<S> {
    /// The candidate addresses that have not been tried, last one first.
    pub addr: Vec<SocketAddress>,
    pub username: String,
    pub key_path: Option<String>,
    pub setup_fn: Option<S>,
}

/// The region of a machine with the addresses `addr`: the word `bare` and
/// the address that is tried last.
pub open spec fn region_of(addr: Seq<SocketAddress>) -> Seq<char> {
    if addr.len() > 0 {
        "bare:"@ + addr[0].display@
    } else {
        "bare:"@
    }
}

impl<S> crate::providers::MachineSetup for Setup<S> {
    open spec fn region_key(&self) -> Seq<char> {
        region_of(self.addr@)
    }

    fn region(&self) -> (r: String) {
        let mut r = String::from_str("bare:");
        if self.addr.len() > 0 {
            r.append(self.addr[0].display.as_str());
        }
        r
    }
}

impl<S> Setup<S> {
    /// A descriptor for the machine that answers at one of `addrs`, which are
    /// tried in the order given, as the user `username`.
    pub fn new(addrs: Vec<SocketAddress>, username: String) -> (d: Self)
        ensures
            d.addr@ == addrs@.reverse(),
            d.username == username,
            d.key_path is None,
            d.setup_fn is None,
    {
        let ghost all = addrs@;
        let mut left = addrs;
        let mut addr: Vec<SocketAddress> = Vec::new();
        while left.len() > 0
            invariant
                left@.len() + addr@.len() == all.len(),
                left@ == all.take(left@.len() as int),
                forall|i: int| 0 <= i < addr@.len() ==> #[trigger] addr@[i] == all[all.len() - 1 - i],
            decreases left@.len(),
        {
            let last = left.pop().unwrap();
            addr.push(last);
        }
        assert(addr@ =~= all.reverse());
        Setup { addr, username, key_path: None, setup_fn: None }
    }

    /// Sets the private key to log in with.
    pub fn key_path(self, p: &str) -> (d: Self)
        ensures
            d.key_path matches Some(path) && path@ == p@,
            d.addr == self.addr,
            d.username == self.username,
            d.setup_fn == self.setup_fn,
    {
        Setup {
            addr: self.addr,
            username: self.username,
            key_path: Some(String::from_str(p)),
            setup_fn: self.setup_fn,
        }
    }

    /// Sets the procedure that is run on the machine once it is reached.
    pub fn setup(self, setup: S) -> (d: Self)
        ensures
            d.setup_fn == Some(setup),
            d.addr == self.addr,
            d.username == self.username,
            d.key_path == self.key_path,
    {
        Setup {
            addr: self.addr,
            username: self.username,
            key_path: self.key_path,
            setup_fn: Some(setup),
        }
    }
}

/// Takes the next candidate address of `s` to try a connection to. The
/// caller goes on until one accepts; once none is left, the machine cannot be
/// reached.
pub fn try_addrs<S>(s: &mut Setup<S>) -> (r: Result<SocketAddress, Error>)
    ensures
        final(s).username == old(s).username,
        final(s).key_path == old(s).key_path,
        final(s).setup_fn == old(s).setup_fn,
        old(s).addr@.len() == 0 ==> {
            &&& r matches Err(Error::NoValidAddress)
            &&& final(s).addr@.len() == 0
        },
        old(s).addr@.len() > 0 ==> {
            &&& r == Ok::<SocketAddress, Error>(old(s).addr@.last())
            &&& final(s).addr@ == old(s).addr@.drop_last()
        },
{
    match s.addr.pop() {
        Some(addr) => Ok(addr),
        None => Err(Error::NoValidAddress),
    }
}

/// The launcher for one existing machine. Only one machine is supported per
/// launcher: further descriptors handed to `launch` are ignored, since it
/// makes no sense to connect to the same machine twice. Teardown does
/// nothing, as the machine is not ours to terminate.
#[derive(Debug, Clone)]
pub struct Machine {
    pub name: String,
    pub addr: Option<SocketAddress>,
    pub username: String,
    pub key_path: Option<String>,
}

impl Default for Machine {
    /// A launcher that has not launched.
    fn default() -> (m: Self)
        ensures
            m.addr is None,
            m.name@.len() == 0,
            m.username@.len() == 0,
            m.key_path is None,
    {
        Machine { name: String::new(), addr: None, username: String::new(), key_path: None }
    }
}

impl Machine {
    /// Picks the machine to launch from a batch: the first one. A batch
    /// without a machine is a configuration error.
    pub fn launch<S>(&self, l: LaunchDescriptor<Setup<S>>) -> (r: Result<(String, Setup<S>), Error>)
        ensures
            l.machines@.len() == 0 ==> r matches Err(Error::EmptyBatch),
            l.machines@.len() > 0 ==> r == Ok::<(String, Setup<S>), Error>(l.machines@[0]),
    {
        let mut machines = l.machines;
        if machines.len() == 0 {
            Err(Error::EmptyBatch)
        } else {
            Ok(machines.remove(0))
        }
    }

    /// Records the machine that was reached at `addr` under the nickname
    /// `name`.
    pub fn record_launch<S>(&mut self, name: String, addr: SocketAddress, setup: Setup<S>)
        ensures
            final(self).name == name,
            final(self).addr == Some(addr),
            final(self).username == setup.username,
            final(self).key_path == setup.key_path,
    {
        self.name = name;
        self.addr = Some(addr);
        self.username = setup.username;
        self.key_path = setup.key_path;
    }

    /// Where to connect to. Fails before a machine was launched.
    pub fn connect_all(&self) -> (r: Result<(String, Connection), Error>)
        ensures
            match self.addr {
                None => r matches Err(Error::NotInitialized),
                Some(addr) => r == Ok::<(String, Connection), Error>(
                    (
                        self.name,
                        Connection {
                            nickname: self.name,
                            public_dns: addr.display,
                            public_ip: addr.ip,
                        },
                    ),
                ),
            },
    {
        match &self.addr {
            None => Err(Error::NotInitialized),
            Some(addr) => Ok(
                (
                    self.name.clone(),
                    Connection {
                        nickname: self.name.clone(),
                        public_dns: addr.display.clone(),
                        public_ip: addr.ip.clone(),
                    },
                ),
            ),
        }
    }
}

} // verus!
