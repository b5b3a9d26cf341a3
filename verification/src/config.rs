//! The settings of the guardian: scalar settings from environment variables, and the list of drivers
//! to guard from a file.
use crate::error::{ErrorView, GuardianError};
use crate::numbers::{parse_bool, parse_number, parse_truth, parse_u64};
use crate::text::{concat, texts};
use vstd::prelude::*;

verus! {

/// One driver to keep present: what has to be known of it, without knowing what its settings mean.
#[derive(Debug)]
pub struct DriverSpec {
    /// The name under which Neutron loads the driver. It is the entry in `mechanism_drivers`, the
    /// directory of the driver in the wheel cache, and the base name of its settings file.
    pub name: String,
    /// What `pip` installs, with a version if one is wanted.
    pub pip_package: String,
    /// The top-level Python module whose import shows that the driver is installed.
    pub import_module: String,
    /// The driver's own settings, in INI form, never read by the guardian. Empty if it needs none.
    pub extra_config_secret_data: String,
    /// The name of an existing Secret that holds the driver's own settings under `<name>.ini`. The
    /// guardian mounts it and neither reads nor writes it.
    pub extra_config_secret_ref: Option<String>,
    /// Set for a driver that cannot stand beside another driver with the same mark.
    pub sole_driver: bool,
}

/// A [`DriverSpec`] with its texts as sequences of characters.
pub struct DriverSpecView {
    pub name: Seq<char>,
    pub pip_package: Seq<char>,
    pub import_module: Seq<char>,
    pub extra_config_secret_data: Seq<char>,
    pub extra_config_secret_ref: Option<Seq<char>>,
    pub sole_driver: bool,
}

/// An optional text.
pub open spec fn opt_text(o: Option<String>) -> Option<Seq<char>> {
    match o {
        Some(s) => Some(s@),
        None => None,
    }
}

/// `o`, or `default` where there is none.
pub open spec fn text_or(o: Option<String>, default: Seq<char>) -> Seq<char> {
    match o {
        Some(s) => s@,
        None => default,
    }
}

impl View for DriverSpec {
    type V = DriverSpecView;

    open spec fn view(&self) -> DriverSpecView {
        DriverSpecView {
            name: self.name@,
            pip_package: self.pip_package@,
            import_module: self.import_module@,
            extra_config_secret_data: self.extra_config_secret_data@,
            extra_config_secret_ref: opt_text(self.extra_config_secret_ref),
            sole_driver: self.sole_driver,
        }
    }
}

/// The views of a list of drivers.
pub open spec fn drivers_view(v: Seq<DriverSpec>) -> Seq<DriverSpecView> {
    Seq::new(v.len(), |i: int| v[i]@)
}

impl DriverSpecView {
    /// Whether the driver has settings of its own.
    pub open spec fn has_extra_config(self) -> bool {
        self.extra_config_secret_data.len() > 0 || self.extra_config_secret_ref is Some
    }

    /// The name of the Secret that the guardian itself writes for the driver.
    pub open spec fn managed_secret_name(self) -> Seq<char> {
        "neutron-ml2-"@ + self.name + "-config"@
    }

    /// The name of the Secret with the driver's own settings, if it has any.
    pub open spec fn extra_config_secret_name(self) -> Option<Seq<char>> {
        if self.extra_config_secret_ref is Some {
            self.extra_config_secret_ref
        } else if self.extra_config_secret_data.len() > 0 {
            Some(self.managed_secret_name())
        } else {
            None
        }
    }

    /// Whether the driver's settings are given in both ways at once.
    pub open spec fn has_both_extra_configs(self) -> bool {
        self.extra_config_secret_data.len() > 0 && self.extra_config_secret_ref is Some
    }
}

impl DriverSpec {
    /// Whether the driver has settings of its own.
    pub fn has_extra_config(&self) -> (r: bool)
        ensures
            r == self@.has_extra_config(),
    {
        !self.extra_config_secret_data.as_str().is_empty() || self.extra_config_secret_ref.is_some()
    }

    /// The name of the Secret that the guardian itself writes for the driver.
    pub fn managed_secret_name(&self) -> (r: String)
        ensures
            r@ == self@.managed_secret_name(),
    {
        concat(concat("neutron-ml2-", self.name.as_str()).as_str(), "-config")
    }

    /// The name of the Secret with the driver's own settings, if it has any: the one that the
    /// settings refer to, else the one that the guardian writes.
    pub fn extra_config_secret_name(&self) -> (r: Option<String>)
        ensures
            opt_text(r) == self@.extra_config_secret_name(),
    {
        match &self.extra_config_secret_ref {
            Some(name) => Some(name.clone()),
            None => if self.extra_config_secret_data.as_str().is_empty() {
                None
            } else {
                Some(self.managed_secret_name())
            },
        }
    }
}

/// What a list of texts looks like in Rust's debug notation.
pub uninterp spec fn debug_list(v: Seq<Seq<char>>) -> Seq<char>;

/// `std::fmt::Debug` of a list of strings: brackets around the strings, each in quotes and with its
/// control characters escaped. What comes out is a function of the strings alone.
#[verifier::external_body]
pub(crate) fn debug_strings(v: &Vec<String>) -> (r: String)
    ensures
        r@ == debug_list(texts(v@)),
{
    format!("{:?}", v)
}

/// The names of the drivers that are marked as unable to stand beside each other, in order.
pub open spec fn sole_names(drivers: Seq<DriverSpecView>) -> Seq<Seq<char>>
    decreases drivers.len(),
{
    if drivers.len() == 0 {
        Seq::empty()
    } else if drivers.last().sole_driver {
        sole_names(drivers.drop_last()).push(drivers.last().name)
    } else {
        sole_names(drivers.drop_last())
    }
}

/// What [`validate_sole_drivers`] returns.
pub open spec fn sole_check(drivers: Seq<DriverSpecView>) -> Result<(), ErrorView> {
    if sole_names(drivers).len() > 1 {
        Err(
            ErrorView::Config(
                "more than one driver is flagged sole_driver ("@ + debug_list(sole_names(drivers))
                    + ") -- these can't be combined, fix the drivers config"@,
            ),
        )
    } else {
        Ok(())
    }
}

/// Whether driver `i` is the first whose settings are given in both ways at once.
pub open spec fn first_with_both(drivers: Seq<DriverSpecView>, i: int) -> bool {
    &&& 0 <= i < drivers.len()
    &&& drivers[i].has_both_extra_configs()
    &&& forall|j: int| 0 <= j < i ==> !(#[trigger] drivers[j]).has_both_extra_configs()
}

/// The refusal of a driver whose settings are given in both ways at once.
pub open spec fn both_error(name: Seq<char>) -> ErrorView {
    ErrorView::Config(
        "driver "@ + name
            + " sets both extraConfigSecretData and extraConfigSecretRef -- only one can be used, fix the drivers config"@,
    )
}

/// A result without a value.
pub open spec fn unit_result(r: Result<(), GuardianError>) -> Result<(), ErrorView> {
    match r {
        Ok(()) => Ok(()),
        Err(e) => Err(e@),
    }
}

/// Refuses two drivers that are both marked as unable to stand beside another such driver.
pub fn validate_sole_drivers(drivers: &Vec<DriverSpec>) -> (r: Result<(), GuardianError>)
    ensures
        unit_result(r) == sole_check(drivers_view(drivers@)),
{
    let ghost all = drivers_view(drivers@);
    let mut sole: Vec<String> = Vec::new();
    assert(texts(sole@) =~= sole_names(all.take(0)));
    for i in 0..drivers.len()
        invariant
            all == drivers_view(drivers@),
            texts(sole@) == sole_names(all.take(i as int)),
    {
        let ghost before = texts(sole@);
        assert(all.take(i + 1).drop_last() =~= all.take(i as int));
        assert(all.take(i + 1).last() == drivers@[i as int]@);
        if drivers[i].sole_driver {
            sole.push(drivers[i].name.clone());
            assert(texts(sole@) =~= before.push(drivers@[i as int].name@));
        }
    }
    assert(all.take(all.len() as int) =~= all);
    assert(texts(sole@).len() == sole@.len());
    if sole.len() > 1 {
        let head = concat(
            "more than one driver is flagged sole_driver (",
            debug_strings(&sole).as_str(),
        );
        return Err(
            GuardianError::Config(
                concat(
                    head.as_str(),
                    ") -- these can't be combined, fix the drivers config",
                ),
            ),
        );
    }
    Ok(())
}

/// Refuses a driver whose own settings are given both as text and as the name of a Secret.
pub fn validate_extra_config_exclusive(drivers: &Vec<DriverSpec>) -> (r: Result<(), GuardianError>)
    ensures
        r is Ok <==> forall|i: int|
            0 <= i < drivers@.len() ==> !(#[trigger] drivers_view(
                drivers@,
            )[i]).has_both_extra_configs(),
        r matches Err(e) ==> exists|i: int| #[trigger]
            first_with_both(drivers_view(drivers@), i) && e@ == both_error(
                drivers_view(drivers@)[i].name,
            ),
{
    let ghost all = drivers_view(drivers@);
    for i in 0..drivers.len()
        invariant
            all == drivers_view(drivers@),
            forall|j: int| 0 <= j < i ==> !(#[trigger] all[j]).has_both_extra_configs(),
    {
        let d = &drivers[i];
        assert(all[i as int] == d@);
        if !d.extra_config_secret_data.as_str().is_empty() && d.extra_config_secret_ref.is_some() {
            assert(first_with_both(all, i as int));
            let head = concat("driver ", d.name.as_str());
            return Err(
                GuardianError::Config(
                    concat(
                        head.as_str(),
                        " sets both extraConfigSecretData and extraConfigSecretRef -- only one can be used, fix the drivers config",
                    ),
                ),
            );
        }
    }
    Ok(())
}

/// The environment variables that are read, each as it is set, if it is.
pub struct EnvVars {
    /// `LISTEN_ADDR`
    pub listen_addr: Option<String>,
    /// `TARGET_NAMESPACE`
    pub target_namespace: Option<String>,
    /// `HELM_RELEASE_NAME`
    pub helm_release_name: Option<String>,
    /// `DEPLOYMENT_NAME`
    pub deployment_name: Option<String>,
    /// `WHEELCACHE_PVC_NAME`
    pub wheelcache_pvc_name: Option<String>,
    /// `RECONCILE_INTERVAL_SECS`
    pub reconcile_interval_secs: Option<String>,
    /// `DRY_RUN`
    pub dry_run: Option<String>,
    /// `DRIVERS_CONFIG_PATH`
    pub drivers_config_path: Option<String>,
}

/// Where the list of drivers is.
pub open spec fn drivers_path(vars: EnvVars) -> Seq<char> {
    text_or(vars.drivers_config_path, "/etc/neutron-ml2-guardian/drivers.yaml"@)
}

impl EnvVars {
    /// The file with the list of drivers.
    pub fn drivers_file(&self) -> (r: String)
        ensures
            r@ == drivers_path(*self),
            r@ == text_or(
                self.drivers_config_path,
                "/etc/neutron-ml2-guardian/drivers.yaml"@,
            ),
    {
        or_default(&self.drivers_config_path, "/etc/neutron-ml2-guardian/drivers.yaml")
    }
}

/// The settings of the guardian.
#[derive(Debug)]
pub struct Config {
    /// The address of the server for health and metrics.
    pub listen_addr: String,
    /// The namespace of the guarded Deployment.
    pub target_namespace: String,
    /// The Helm release that the Deployment belongs to.
    pub helm_release_name: String,
    /// The Deployment that runs `neutron-server`.
    pub deployment_name: String,
    /// The volume claim of the shared wheel cache.
    pub wheelcache_pvc_name: String,
    /// The time between two reconcile passes.
    pub reconcile_interval_secs: u64,
    /// When set, nothing is installed: an absent driver is only reported, and what was installed
    /// before is taken out again.
    pub dry_run: bool,
    /// The drivers to keep present.
    pub drivers: Vec<DriverSpec>,
}

/// A [`Config`] with its texts as sequences of characters.
pub struct ConfigView {
    pub listen_addr: Seq<char>,
    pub target_namespace: Seq<char>,
    pub helm_release_name: Seq<char>,
    pub deployment_name: Seq<char>,
    pub wheelcache_pvc_name: Seq<char>,
    pub reconcile_interval_secs: u64,
    pub dry_run: bool,
    pub drivers: Seq<DriverSpecView>,
}

impl View for Config {
    type V = ConfigView;

    open spec fn view(&self) -> ConfigView {
        ConfigView {
            listen_addr: self.listen_addr@,
            target_namespace: self.target_namespace@,
            helm_release_name: self.helm_release_name@,
            deployment_name: self.deployment_name@,
            wheelcache_pvc_name: self.wheelcache_pvc_name@,
            reconcile_interval_secs: self.reconcile_interval_secs,
            dry_run: self.dry_run,
            drivers: drivers_view(self.drivers@),
        }
    }
}

/// The number that a variable is set to; `default` where it is not set or not a number.
pub open spec fn number_or(o: Option<String>, default: u64) -> u64 {
    match o {
        Some(s) => match parse_number(s@) {
            Some(n) => n,
            None => default,
        },
        None => default,
    }
}

/// The truth value that a variable is set to; `default` where it is not set or neither.
pub open spec fn truth_or(o: Option<String>, default: bool) -> bool {
    match o {
        Some(s) => match parse_truth(s@) {
            Some(b) => b,
            None => default,
        },
        None => default,
    }
}

fn or_default(o: &Option<String>, default: &str) -> (r: String)
    ensures
        r@ == text_or(*o, default@),
{
    match o {
        Some(s) => s.clone(),
        None => default.to_owned(),
    }
}

/// The settings that the environment and the list of drivers amount to.
pub open spec fn settings(vars: EnvVars, drivers: Seq<DriverSpecView>) -> ConfigView {
    ConfigView {
        listen_addr: text_or(vars.listen_addr, "0.0.0.0:8080"@),
        target_namespace: text_or(vars.target_namespace, "pcd"@),
        helm_release_name: text_or(vars.helm_release_name, "neutron"@),
        deployment_name: text_or(vars.deployment_name, "neutron-server"@),
        wheelcache_pvc_name: text_or(vars.wheelcache_pvc_name, "neutron-ml2-wheelcache"@),
        reconcile_interval_secs: number_or(vars.reconcile_interval_secs, 300),
        dry_run: truth_or(vars.dry_run, true),
        drivers,
    }
}

/// Whether a list of drivers can be used: at most one driver is marked as unable to stand beside
/// another such driver, and none has its settings given in both ways at once.
pub open spec fn acceptable(drivers: Seq<DriverSpecView>) -> bool {
    &&& sole_names(drivers).len() <= 1
    &&& forall|i: int| 0 <= i < drivers.len() ==> !(#[trigger] drivers[i]).has_both_extra_configs()
}

/// What became of reading the file with the list of drivers.
pub enum DriversFile {
    /// There is no such file.
    Missing,
    /// The file could not be read, for the given reason.
    Unreadable(String),
    /// The file does not hold a list of drivers, for the given reason.
    Unparsable(String),
    /// The file holds this list.
    Parsed(Vec<DriverSpec>),
}

/// A result whose success is a list of drivers.
pub open spec fn drivers_result(r: Result<Vec<DriverSpec>, GuardianError>) -> Result<
    Seq<DriverSpecView>,
    ErrorView,
> {
    match r {
        Ok(v) => Ok(drivers_view(v@)),
        Err(e) => Err(e@),
    }
}

/// What [`load_drivers`] returns.
pub open spec fn drivers_in(path: Seq<char>, file: DriversFile) -> Result<
    Seq<DriverSpecView>,
    ErrorView,
> {
    match file {
        DriversFile::Missing => Ok(Seq::empty()),
        DriversFile::Unreadable(why) => Err(
            ErrorView::Config("reading drivers config "@ + path + ": "@ + why@),
        ),
        DriversFile::Unparsable(why) => Err(
            ErrorView::Config("parsing drivers config "@ + path + ": "@ + why@),
        ),
        DriversFile::Parsed(drivers) => Ok(drivers_view(drivers@)),
    }
}

/// The list of drivers in the file at `path`. No file is an empty list.
pub fn load_drivers(path: &str, file: DriversFile) -> (r: Result<Vec<DriverSpec>, GuardianError>)
    ensures
        drivers_result(r) == drivers_in(path@, file),
        match file {
            DriversFile::Missing => r is Ok && r->Ok_0@.len() == 0,
            DriversFile::Unreadable(why) => r is Err && r->Err_0@ == ErrorView::Config(
                "reading drivers config "@ + path@ + ": "@ + why@,
            ),
            DriversFile::Unparsable(why) => r is Err && r->Err_0@ == ErrorView::Config(
                "parsing drivers config "@ + path@ + ": "@ + why@,
            ),
            DriversFile::Parsed(drivers) => r == Ok::<Vec<DriverSpec>, GuardianError>(drivers),
        },
{
    match file {
        DriversFile::Missing => {
            let none: Vec<DriverSpec> = Vec::new();
            assert(drivers_view(none@) =~= Seq::empty());
            Ok(none)
        },
        DriversFile::Unreadable(why) => {
            let head = concat(concat("reading drivers config ", path).as_str(), ": ");
            Err(GuardianError::Config(concat(head.as_str(), why.as_str())))
        },
        DriversFile::Unparsable(why) => {
            let head = concat(concat("parsing drivers config ", path).as_str(), ": ");
            Err(GuardianError::Config(concat(head.as_str(), why.as_str())))
        },
        DriversFile::Parsed(drivers) => Ok(drivers),
    }
}

impl Config {
    /// The settings that the environment and the list of drivers amount to. A variable that is not
    /// set, or whose value is not a number or a truth value where one is wanted, counts with its
    /// default; for `DRY_RUN` that is the safe value, true. A list of drivers that cannot be used is
    /// refused.
    pub fn from_env(vars: &EnvVars, drivers: Vec<DriverSpec>) -> (r: Result<Config, GuardianError>)
        ensures
            r is Ok <==> acceptable(drivers_view(drivers@)),
            r matches Ok(c) ==> c@ == settings(*vars, drivers_view(drivers@)),
            r matches Err(e) ==> if sole_names(drivers_view(drivers@)).len() > 1 {
                sole_check(drivers_view(drivers@)) == Err::<(), ErrorView>(e@)
            } else {
                exists|i: int| #[trigger]
                    first_with_both(drivers_view(drivers@), i) && e@ == both_error(
                        drivers_view(drivers@)[i].name,
                    )
            },
    {
        let ghost all = drivers_view(drivers@);
        match validate_sole_drivers(&drivers) {
            Ok(()) => {},
            Err(e) => {
                return Err(e);
            },
        }
        match validate_extra_config_exclusive(&drivers) {
            Ok(()) => {
                assert forall|i: int| 0 <= i < all.len() implies !(
                #[trigger] all[i]).has_both_extra_configs() by {}
            },
            Err(e) => {
                return Err(e);
            },
        }
        let reconcile_interval_secs: u64 = match &vars.reconcile_interval_secs {
            Some(s) => match parse_u64(s.as_str()) {
                Some(n) => n,
                None => 300,
            },
            None => 300,
        };
        let dry_run = match &vars.dry_run {
            Some(s) => match parse_bool(s.as_str()) {
                Some(b) => b,
                None => true,
            },
            None => true,
        };
        Ok(
            Config {
                listen_addr: or_default(&vars.listen_addr, "0.0.0.0:8080"),
                target_namespace: or_default(&vars.target_namespace, "pcd"),
                helm_release_name: or_default(&vars.helm_release_name, "neutron"),
                deployment_name: or_default(&vars.deployment_name, "neutron-server"),
                wheelcache_pvc_name: or_default(
                    &vars.wheelcache_pvc_name,
                    "neutron-ml2-wheelcache",
                ),
                reconcile_interval_secs,
                dry_run,
                drivers,
            },
        )
    }
}

/// Only the word `false` ends the dry run: a variable that is not set, or is set to anything else,
/// keeps it.
pub proof fn law_only_the_word_false_ends_the_dry_run(
    vars: EnvVars,
    drivers: Seq<DriverSpecView>,
)
    ensures
        !settings(vars, drivers).dry_run <==> vars.dry_run is Some && vars.dry_run->0@ == "false"@,
{
    reveal_strlit("true");
    reveal_strlit("false");
    assert("true"@.len() != "false"@.len());
}

/// A list of drivers that can be used has no two drivers that are both marked as unable to stand
/// beside each other.
pub proof fn law_no_two_sole_drivers(drivers: Seq<DriverSpecView>, i: int, j: int)
    requires
        acceptable(drivers),
        0 <= i < j < drivers.len(),
    ensures
        !(drivers[i].sole_driver && drivers[j].sole_driver),
{
    if drivers[i].sole_driver && drivers[j].sole_driver {
        lemma_sole_pair(drivers, i, j);
    }
}

/// A driver with the mark is counted.
proof fn lemma_sole_count(drivers: Seq<DriverSpecView>, i: int)
    requires
        0 <= i < drivers.len(),
        drivers[i].sole_driver,
    ensures
        sole_names(drivers).len() >= 1,
    decreases drivers.len(),
{
    if i < drivers.len() - 1 {
        assert(drivers.drop_last()[i] == drivers[i]);
        lemma_sole_count(drivers.drop_last(), i);
    }
}

/// Two drivers with the mark are both counted.
proof fn lemma_sole_pair(drivers: Seq<DriverSpecView>, i: int, j: int)
    requires
        0 <= i < j < drivers.len(),
        drivers[i].sole_driver,
        drivers[j].sole_driver,
    ensures
        sole_names(drivers).len() >= 2,
    decreases drivers.len(),
{
    let rest = drivers.drop_last();
    assert(rest[i] == drivers[i]);
    if j == drivers.len() - 1 {
        lemma_sole_count(rest, i);
    } else {
        assert(rest[j] == drivers[j]);
        lemma_sole_pair(rest, i, j);
    }
}

} // verus!
