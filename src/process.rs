use vstd::prelude::*;

verus! {

/// Which login process, if any, the application is waiting on. The
/// application owns one value of it behind a lock.
pub struct ProcessState {
    pub running: bool,
    pub pid: u32,
    pub cli_ver: String,
}

impl ProcessState {
    pub fn new(cli_ver: String) -> (r: ProcessState)
        ensures
            !r.running,
            r.pid == 0,
            r.cli_ver@ == cli_ver@,
    {
        ProcessState { running: false, pid: 0, cli_ver }
    }

    /// Records that process `pid` is the running login.
    pub fn start_login(&mut self, pid: u32)
        ensures
            final(self).running,
            final(self).pid == pid,
            final(self).cli_ver@ == old(self).cli_ver@,
    {
        self.running = true;
        self.pid = pid;
    }

    /// Forgets the running login. Returns whether process `id` is the login
    /// that was running, and so is the one to stop.
    pub fn kill_running_login(&mut self, id: u32) -> (kill: bool)
        ensures
            kill == (old(self).running && old(self).pid == id),
            !final(self).running,
            final(self).pid == 0,
            final(self).cli_ver@ == old(self).cli_ver@,
    {
        let kill = self.running && self.pid == id;
        self.running = false;
        self.pid = 0;
        kill
    }
}

} // verus!
