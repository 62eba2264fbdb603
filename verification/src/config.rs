//! The settings of a fleet: the account, the directories and the machines.

use vstd::prelude::*;
use vstd::string::*;

verus! {

#[derive(Debug)]
pub struct Config {
    pub system: System,
    pub jdk: Jdk,
    pub machines: Machines,
}

#[derive(Debug)]
pub struct System {
    pub user_name: String,
    pub remote_work_dir: String,
}

#[derive(Debug)]
pub struct Jdk {
    pub use_custom_jdk: bool,
    pub dir_name: String,
    pub package_path: String,
    pub jvm_args: String,
    pub package_filename: String,
    pub remote_java_bin: String,
}

#[derive(Debug)]
pub struct Machines {
    pub all: Vec<String>,
    pub sequencer: Option<String>,
    pub servers: Vec<String>,
    pub clients: Vec<String>,
}

impl Clone for System {
    fn clone(&self) -> (copy: Self)
        ensures
            copy == *self,
    {
        System {
            user_name: self.user_name.clone(),
            remote_work_dir: self.remote_work_dir.clone(),
        }
    }
}

impl Clone for Jdk {
    fn clone(&self) -> (copy: Self)
        ensures
            copy == *self,
    {
        Jdk {
            use_custom_jdk: self.use_custom_jdk,
            dir_name: self.dir_name.clone(),
            package_path: self.package_path.clone(),
            jvm_args: self.jvm_args.clone(),
            package_filename: self.package_filename.clone(),
            remote_java_bin: self.remote_java_bin.clone(),
        }
    }
}

/// A copy of a list of names, name by name.
pub fn clone_names(names: &Vec<String>) -> (copy: Vec<String>)
    ensures
        copy@ == names@,
{
    let mut copy: Vec<String> = Vec::new();
    let mut i: usize = 0;
    while i < names.len()
        invariant
            i <= names@.len(),
            copy@ == names@.take(i as int),
        decreases names@.len() - i,
    {
        copy.push(names[i].clone());
        assert(copy@ =~= names@.take(i + 1));
        i += 1;
    }
    assert(names@.take(i as int) =~= names@);
    copy
}

impl Clone for Machines {
    fn clone(&self) -> (copy: Self)
        ensures
            copy.all@ == self.all@,
            copy.sequencer == self.sequencer,
            copy.servers@ == self.servers@,
            copy.clients@ == self.clients@,
    {
        let sequencer = match &self.sequencer {
            Some(ip) => Some(ip.clone()),
            None => None,
        };
        Machines {
            all: clone_names(&self.all),
            sequencer,
            servers: clone_names(&self.servers),
            clients: clone_names(&self.clients),
        }
    }
}

impl Clone for Config {
    fn clone(&self) -> (copy: Self)
        ensures
            copy.system == self.system,
            copy.jdk == self.jdk,
            copy.machines.all@ == self.machines.all@,
            copy.machines.sequencer == self.machines.sequencer,
            copy.machines.servers@ == self.machines.servers@,
            copy.machines.clients@ == self.machines.clients@,
    {
        Config {
            system: self.system.clone(),
            jdk: self.jdk.clone(),
            machines: self.machines.clone(),
        }
    }
}

/// The sequencer's machine, if there is one, as a list.
pub open spec fn sequencer_first(sequencer: Option<String>) -> Seq<String> {
    match sequencer {
        Some(ip) => seq![ip],
        None => Seq::empty(),
    }
}

impl Config {
    /// Adds every machine to `machines.all`: the sequencer's first, then the
    /// servers', then the clients'.
    pub fn generate_all_ips(&mut self)
        ensures
            final(self).machines.all@ == old(self).machines.all@ + sequencer_first(
                old(self).machines.sequencer,
            ) + old(self).machines.servers@ + old(self).machines.clients@,
            final(self).system == old(self).system,
            final(self).jdk == old(self).jdk,
            final(self).machines.sequencer == old(self).machines.sequencer,
            final(self).machines.servers == old(self).machines.servers,
            final(self).machines.clients == old(self).machines.clients,
    {
        if let Some(seq) = &self.machines.sequencer {
            let ip = seq.clone();
            self.machines.all.push(ip);
        }
        let mut servers = clone_names(&self.machines.servers);
        self.machines.all.append(&mut servers);
        let mut clients = clone_names(&self.machines.clients);
        self.machines.all.append(&mut clients);
    }
}

} // verus!
