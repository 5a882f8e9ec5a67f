//! Operator defaults for the boot path.
use vstd::prelude::*;

verus! {

#[derive(Clone, Debug)]
pub struct Profile {
    /// "pvh" or "ovmf".
    pub boot_mode: String,
    /// "stealth" or "passthrough".
    pub net_mode: String,
    pub kernel: String,
    pub initrd: Option<String>,
    pub cmdline: String,
}

impl Default for Profile {
    fn default() -> (r: Profile)
        ensures
            r.boot_mode@ == "pvh"@,
            r.net_mode@ == "stealth"@,
            r.kernel@ == Seq::<char>::empty(),
            r.initrd is None,
            r.cmdline@ == "console=ttyS0"@,
    {
        Profile {
            boot_mode: "pvh".to_owned(),
            net_mode: "stealth".to_owned(),
            kernel: String::new(),
            initrd: None,
            cmdline: "console=ttyS0".to_owned(),
        }
    }
}

} // verus!
