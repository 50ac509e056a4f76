use vstd::prelude::*;

use crate::error::Error;

verus! {

/// Relies on sanitize_filename::sanitize, which removes, among others, every
/// `/`, `\` and `:` from a name (what else it removes depends on the platform).
#[verifier::external_body]
fn sanitize_name(name: &str) -> (r: String)
    ensures
        forall|i: int| 0 <= i < r@.len() ==> r@[i] != '/' && r@[i] != '\\' && r@[i] != ':',
        r@.len() <= name@.len(),
{
    sanitize_filename::sanitize(name)
}

/// The first port tried for a new instance, and the end of the range tried.
pub const FIRST_PORT: u32 = 25565;

pub const PORT_RANGE_END: u32 = 26000;

/// One managed instance: its uuid and its (sanitized) name.
#[derive(Clone, Debug)]
pub struct ManagedInstance {
    pub uuid: String,
    pub name: String,
}

/// What `create_instance` decided for a new instance.
#[derive(Clone, Debug)]
pub struct NewInstance {
    pub uuid: String,
    pub name: String,
    pub path: String,
    pub port: Option<u32>,
}

pub open spec fn name_taken(instances: Seq<ManagedInstance>, name: Seq<char>) -> bool {
    exists|i: int| 0 <= i < instances.len() && (#[trigger] instances[i]).name@ == name
}

pub open spec fn uuid_known(instances: Seq<ManagedInstance>, uuid: Seq<char>) -> bool {
    exists|i: int| 0 <= i < instances.len() && (#[trigger] instances[i]).uuid@ == uuid
}

/// The first port of the range that `taken` does not hold, if any.
pub open spec fn is_first_free_port(taken: Seq<u32>, p: u32) -> bool {
    &&& FIRST_PORT <= p < PORT_RANGE_END
    &&& !taken.contains(p)
    &&& forall|q: u32| FIRST_PORT <= q < p ==> taken.contains(q)
}

/// The instances of one installation, by uuid, with the ports handed out and
/// the directory that holds them (ending with `/`).
#[derive(Debug)]
pub struct InstanceManager {
    pub instance_collection: Vec<ManagedInstance>,
    pub taken_ports: Vec<u32>,
    pub path: String,
}

impl InstanceManager {
    pub fn new(path: String, instances: Vec<ManagedInstance>) -> (r: Self)
        ensures
            r.path == path,
            r.instance_collection == instances,
            r.taken_ports@.len() == 0,
    {
        InstanceManager { instance_collection: instances, taken_ports: Vec::new(), path }
    }

    /// Whether an instance is named `name`.
    pub fn check_if_name_exists(&self, name: &String) -> (r: bool)
        ensures
            r == name_taken(self.instance_collection@, name@),
    {
        let mut i: usize = 0;
        while i < self.instance_collection.len()
            invariant
                i <= self.instance_collection@.len(),
                forall|j: int| 0 <= j < i ==> (#[trigger] self.instance_collection@[j]).name@ != name@,
            decreases self.instance_collection@.len() - i,
        {
            if self.instance_collection[i].name == *name {
                return true;
            }
            i += 1;
        }
        false
    }

    fn port_taken(&self, port: u32) -> (r: bool)
        ensures
            r == self.taken_ports@.contains(port),
    {
        let mut i: usize = 0;
        while i < self.taken_ports.len()
            invariant
                i <= self.taken_ports@.len(),
                forall|j: int| 0 <= j < i ==> self.taken_ports@[j] != port,
            decreases self.taken_ports@.len() - i,
        {
            if self.taken_ports[i] == port {
                return true;
            }
            i += 1;
        }
        false
    }

    /// The first port from `FIRST_PORT` on, below `PORT_RANGE_END`, that is
    /// not handed out yet.
    pub fn first_free_port(&self) -> (r: Option<u32>)
        ensures
            r matches Some(p) ==> is_first_free_port(self.taken_ports@, p),
            r is None ==> forall|q: u32| FIRST_PORT <= q < PORT_RANGE_END ==> self.taken_ports@.contains(q),
    {
        let mut port: u32 = FIRST_PORT;
        while port < PORT_RANGE_END
            invariant
                FIRST_PORT <= port <= PORT_RANGE_END,
                forall|q: u32| FIRST_PORT <= q < port ==> self.taken_ports@.contains(q),
            decreases PORT_RANGE_END - port,
        {
            if !self.port_taken(port) {
                return Some(port);
            }
            port += 1;
        }
        None
    }

    /// Registers a new instance named `name` under `uuid`, refusing a name
    /// already in use. With no port given, the first free one is handed out,
    /// when there is one.
    pub fn register_instance(&mut self, name: String, uuid: String, port: Option<u32>) -> (r: Result<
        NewInstance,
        Error,
    >)
        ensures
            r is Err <==> name_taken(old(self).instance_collection@, name@),
            r matches Ok(n) ==> {
                &&& n.name == name
                &&& n.uuid == uuid
                &&& n.path@ == old(self).path@ + n.name@ + "/"@
                &&& final(self).instance_collection@ == old(self).instance_collection@.push(
                    ManagedInstance { uuid: n.uuid, name: n.name },
                )
                &&& match port {
                    Some(p) => n.port == Some(p) && final(self).taken_ports@ == old(self).taken_ports@,
                    None => match n.port {
                        Some(p) => is_first_free_port(old(self).taken_ports@, p)
                            && final(self).taken_ports@ == old(self).taken_ports@.push(p),
                        None => (forall|q: u32|
                            FIRST_PORT <= q < PORT_RANGE_END ==> old(self).taken_ports@.contains(q))
                            && final(self).taken_ports@ == old(self).taken_ports@,
                    },
                }
            },
            r matches Err(e) ==> e == Error::InstanceExists && final(self).instance_collection@
                == old(self).instance_collection@ && final(self).taken_ports@ == old(
                self,
            ).taken_ports@,
            final(self).path == old(self).path,
    {
        if self.check_if_name_exists(&name) {
            return Err(Error::InstanceExists);
        }
        let mut path = self.path.clone();
        path.append(name.as_str());
        path.append("/");
        let port = match port {
            Some(p) => Some(p),
            None => match self.first_free_port() {
                Some(p) => {
                    self.taken_ports.push(p);
                    Some(p)
                },
                None => None,
            },
        };
        self.instance_collection.push(ManagedInstance { uuid: uuid.clone(), name: name.clone() });
        Ok(NewInstance { uuid, name, path, port })
    }

    /// Registers a new instance named after `name`, sanitized for use as a
    /// directory name, as `register_instance` does.
    pub fn create_instance(&mut self, name: &str, uuid: String, port: Option<u32>) -> (r: Result<
        NewInstance,
        Error,
    >)
        ensures
            old(self).instance_collection@.len() == 0 ==> r is Ok,
            r matches Ok(n) ==> {
                &&& !name_taken(old(self).instance_collection@, n.name@)
                &&& forall|i: int| 0 <= i < n.name@.len() ==> n.name@[i] != '/' && n.name@[i] != '\\'
                &&& n.uuid == uuid
                &&& n.path@ == old(self).path@ + n.name@ + "/"@
                &&& final(self).instance_collection@ == old(self).instance_collection@.push(
                    ManagedInstance { uuid: n.uuid, name: n.name },
                )
                &&& match port {
                    Some(p) => n.port == Some(p) && final(self).taken_ports@ == old(self).taken_ports@,
                    None => match n.port {
                        Some(p) => is_first_free_port(old(self).taken_ports@, p)
                            && final(self).taken_ports@ == old(self).taken_ports@.push(p),
                        None => final(self).taken_ports@ == old(self).taken_ports@,
                    },
                }
            },
            r matches Err(e) ==> e == Error::InstanceExists && final(self).instance_collection@
                == old(self).instance_collection@ && final(self).taken_ports@ == old(
                self,
            ).taken_ports@,
            final(self).path == old(self).path,
    {
        let sanitized = sanitize_name(name);
        self.register_instance(sanitized, uuid, port)
    }

    /// Forgets the instance with this uuid, giving back its entry.
    pub fn delete_instance(&mut self, uuid: &String) -> (r: Result<ManagedInstance, Error>)
        ensures
            !uuid_known(old(self).instance_collection@, uuid@) ==> (r matches Err(e) && e
                == Error::InstanceNotFound && final(self).instance_collection@ == old(
                self,
            ).instance_collection@),
            uuid_known(old(self).instance_collection@, uuid@) ==> (r matches Ok(m) && exists|i: int|
                0 <= i < old(self).instance_collection@.len() && old(self).instance_collection@[i]
                    == m && m.uuid@ == uuid@ && final(self).instance_collection@ == old(
                    self,
                ).instance_collection@.remove(i)),
            final(self).taken_ports == old(self).taken_ports,
            final(self).path == old(self).path,
    {
        let mut i: usize = 0;
        while i < self.instance_collection.len()
            invariant
                i <= self.instance_collection@.len(),
                self.instance_collection@ == old(self).instance_collection@,
                self.taken_ports == old(self).taken_ports,
                self.path == old(self).path,
                forall|j: int| 0 <= j < i ==> (#[trigger] self.instance_collection@[j]).uuid@ != uuid@,
            decreases self.instance_collection@.len() - i,
        {
            if self.instance_collection[i].uuid == *uuid {
                let ghost before = self.instance_collection@;
                let removed = self.instance_collection.remove(i);
                proof {
                    assert(before[i as int].uuid@ == uuid@);
                    assert(uuid_known(before, uuid@));
                }
                return Ok(removed);
            }
            i += 1;
        }
        proof {
            assert(!uuid_known(self.instance_collection@, uuid@));
        }
        Err(Error::InstanceNotFound)
    }

    /// Checks that the copy of the instance with this uuid, named after it
    /// with `_copy`, would not collide with an existing name.
    pub fn clone_instance(&self, uuid: &String) -> (r: Result<(), Error>)
        ensures
            r is Err <==> exists|i: int|
                0 <= i < self.instance_collection@.len() && (#[trigger] self.instance_collection@[i]).uuid@
                    == uuid@ && name_taken(
                    self.instance_collection@,
                    self.instance_collection@[i].name@ + "_copy"@,
                ),
            r matches Err(e) ==> e == Error::InstanceExists,
    {
        let mut i: usize = 0;
        while i < self.instance_collection.len()
            invariant
                i <= self.instance_collection@.len(),
                forall|j: int|
                    0 <= j < i ==> !((#[trigger] self.instance_collection@[j]).uuid@ == uuid@
                        && name_taken(
                        self.instance_collection@,
                        self.instance_collection@[j].name@ + "_copy"@,
                    )),
            decreases self.instance_collection@.len() - i,
        {
            if self.instance_collection[i].uuid == *uuid {
                let mut copy = self.instance_collection[i].name.clone();
                copy.append("_copy");
                if self.check_if_name_exists(&copy) {
                    return Err(Error::InstanceExists);
                }
            }
            i += 1;
        }
        Ok(())
    }
}

} // verus!
