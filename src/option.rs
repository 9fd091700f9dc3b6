use vstd::prelude::*;

verus! {

/// Which of the declared targets an install run covers.
#[derive(PartialEq, Eq)]
pub enum InstallMode {
    All,
    SpecificInstallTargetsOnly { specific_install_targets: Vec<String> },
}

/// Options of one install run.
pub struct InstallServiceOption {
    mode: InstallMode,
}

impl InstallServiceOption {
    pub closed spec fn spec_mode(&self) -> &InstallMode {
        &self.mode
    }

    pub fn mode(&self) -> (r: &InstallMode)
        ensures
            r == self.spec_mode(),
    {
        &self.mode
    }
}

/// Builder of [`InstallServiceOption`]; the mode defaults to [`InstallMode::All`].
pub struct InstallServiceOptionBuilder {
    mode: Option<InstallMode>,
}

impl InstallServiceOptionBuilder {
    pub closed spec fn spec_mode(&self) -> Option<InstallMode> {
        self.mode
    }

    #[allow(clippy::new_without_default)]
    pub fn new() -> (r: Self)
        ensures
            r.spec_mode() is None,
    {
        InstallServiceOptionBuilder { mode: None }
    }

    pub fn mode(self, mode: InstallMode) -> (r: Self)
        ensures
            r.spec_mode() == Some(mode),
    {
        InstallServiceOptionBuilder { mode: Some(mode) }
    }

    pub fn build(self) -> (r: InstallServiceOption)
        ensures
            self.spec_mode() is None ==> r.spec_mode() == InstallMode::All,
            self.spec_mode() matches Some(m) ==> *r.spec_mode() == m,
    {
        match self.mode {
            Some(m) => InstallServiceOption { mode: m },
            None => InstallServiceOption { mode: InstallMode::All },
        }
    }
}

} // verus!
