//! Fixed values of the cluster and of the application.
use vstd::prelude::*;

verus! {

/// Default values for pod configuration.
pub const DEFAULT_CPU_CORES: u8 = 16;

pub const DEFAULT_MEMORY_GB: u8 = 50;

/// The lecture account's password unless the user saved another one.
pub const LECTURE_PASSWORD: &'static str = "Test1234";

/// The local port that port forwarding opens (RStudio).
pub const FORWARD_PORT: u16 = 8787;

/// The directory of the application below the user's configuration directory.
pub const APP_DIR: &'static str = "thumed_helper";

/// Helm repository and chart.
pub const HELM_REPO_URL: &'static str = "http://166.111.153.65:7001";

pub const HELM_REPO_NAME: &'static str = "med-helm";

pub const HELM_CHART: &'static str = "med-helm/med";

/// Default application name.
pub const APP_NAME: &'static str = "THU-Med Cluster Helper";

pub const APP_VERSION: &'static str = "Lecture version";

/// The Helm values of a pod; the placeholders in braces are filled in.
pub const HELM_VALUES_TEMPLATE: &'static str = "replicaCount: 1
mode: deployment

image:
  repository: base.med.thu/public/r-4.6
  pullPolicy: Always
  tag: \"v1\"

containerName: \"{container_name}\"

service:
  type: ClusterIP
  port: 8787

resources:
  cpu: \"{cpu}\"
  memory: \"{memory}\"

imageCredentials:
  registry: base.med.thu
  username: {username}
  password: {password}

loadDataPath:
  public:
    - \"input\"
    - \"lessonPublic\"
  personal:
    - {username}

type: centos

nfs: \"Aries\"

transfer: false
";

} // verus!
