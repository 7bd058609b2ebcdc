use vstd::prelude::*;

verus! {

/// The host name shown where the system does not give one.
pub const DEFAULT_HOSTNAME: &'static str = "hostname";

/// The read-only description of the host that scripts see.
pub struct SystemIdentity {
    pub desktop_env: String,
    pub devicename: String,
    pub username: String,
    pub realname: String,
    pub platform: String,
    pub distro: String,
    pub arch: String,
    pub hostname: String,
}

impl SystemIdentity {
    /// The identity made of the given values, where a missing host name is shown as
    /// `DEFAULT_HOSTNAME`.
    pub fn from_parts(
        desktop_env: String,
        devicename: String,
        username: String,
        realname: String,
        platform: String,
        distro: String,
        arch: String,
        hostname: Option<String>,
    ) -> (r: SystemIdentity)
        ensures
            r.desktop_env == desktop_env,
            r.devicename == devicename,
            r.username == username,
            r.realname == realname,
            r.platform == platform,
            r.distro == distro,
            r.arch == arch,
            r.hostname@ == (match hostname {
                Some(h) => h@,
                None => DEFAULT_HOSTNAME@,
            }),
    {
        let hostname = match hostname {
            Some(h) => h,
            None => DEFAULT_HOSTNAME.to_owned(),
        };
        SystemIdentity {
            desktop_env,
            devicename,
            username,
            realname,
            platform,
            distro,
            arch,
            hostname,
        }
    }
}

} // verus!
