//! The container runtime as a service: what is run, with which configuration.

use crate::config::types::{RestartPolicy, RuntimeSection, ServiceConfig, ServiceView};
use crate::text::same;
use vstd::prelude::*;
use vstd::string::*;

verus! {

/// The id that is reserved for the container runtime.
pub const RUNTIME_SERVICE_ID: &'static str = "containerd";

/// The image that pod sandboxes are made of.
pub const PAUSE_IMAGE: &'static str = "registry.k8s.io/pause:3.10";

/// The runtime's configuration up to its socket.
pub const CONFIG_HEAD: &'static str = r#"version = 3
root = "/var/lib/containerd"
state = "/run/containerd"

[grpc]
  address = ""#;

/// The runtime's configuration between its socket and the sandbox image.
pub const CONFIG_MIDDLE: &'static str = r#""

[plugins.'io.containerd.cri.v1.runtime']
  sandbox_image = ""#;

/// The runtime's configuration behind the sandbox image.
pub const CONFIG_TAIL: &'static str = r#""
  [plugins.'io.containerd.cri.v1.runtime'.containerd]
    default_runtime_name = "runc"

    [plugins.'io.containerd.cri.v1.runtime'.containerd.runtimes.runc]
      runtime_type = "io.containerd.runc.v2"

      [plugins.'io.containerd.cri.v1.runtime'.containerd.runtimes.runc.options]
        SystemdCgroup = false
        BinaryName = "/boot/bin/runc"
"#;

/// The arguments with which `ctr` imports an image archive for the runtime.
pub fn ctr_import_args<'a>(socket: &'a str, tar: &'a str) -> (r: Vec<&'a str>)
    ensures
        crate::text::str_texts(r@) == seq![
            "--address"@,
            socket@,
            "-n"@,
            "k8s.io"@,
            "images"@,
            "import"@,
            tar@,
        ],
{
    let r = vec!["--address", socket, "-n", "k8s.io", "images", "import", tar];
    assert(crate::text::str_texts(r@) =~= seq![
        "--address"@,
        socket@,
        "-n"@,
        "k8s.io"@,
        "images"@,
        "import"@,
        tar@,
    ]);
    r
}

/// The runtime as a service.
pub open spec fn runtime_service(rt: RuntimeSection) -> ServiceView {
    ServiceView {
        id: RUNTIME_SERVICE_ID@,
        command: seq![rt.binary@, "--config"@, rt.config_path@],
        depends_on: seq![],
        restart: RestartPolicy::Always,
        stop_grace_secs: None,
    }
}

/// The runtime as a service.
pub fn containerd_service(rt: &RuntimeSection) -> (r: ServiceConfig)
    ensures
        r@ == runtime_service(*rt),
{
    let r = ServiceConfig {
        id: RUNTIME_SERVICE_ID.to_owned(),
        command: vec![rt.binary.clone(), "--config".to_owned(), rt.config_path.clone()],
        depends_on: Vec::new(),
        restart: RestartPolicy::Always,
        stop_grace_secs: None,
    };
    assert(r@ =~~= runtime_service(*rt));
    r
}

/// The runtime's configuration: its socket and the sandbox image put into a
/// fixed text.
pub open spec fn runtime_config(rt: RuntimeSection) -> Seq<char> {
    CONFIG_HEAD@ + rt.socket@ + CONFIG_MIDDLE@ + PAUSE_IMAGE@ + CONFIG_TAIL@
}

/// The runtime's configuration: its socket and the sandbox image put into a
/// fixed text.
pub fn containerd_config_toml(rt: &RuntimeSection) -> (r: String)
    ensures
        r@ == CONFIG_HEAD@ + rt.socket@ + CONFIG_MIDDLE@ + PAUSE_IMAGE@ + CONFIG_TAIL@,
        r@ == runtime_config(*rt),
{
    let mut s = CONFIG_HEAD.to_owned();
    s.append(rt.socket.as_str());
    s.append(CONFIG_MIDDLE);
    s.append(PAUSE_IMAGE);
    s.append(CONFIG_TAIL);
    s
}

/// What a list of services is configured as.
pub open spec fn service_views(v: Seq<ServiceConfig>) -> Seq<ServiceView> {
    Seq::new(v.len(), |i: int| v[i]@)
}

/// The services to run: the runtime first, unless it is disabled, and the
/// user's behind it.
pub open spec fn effective(rt: RuntimeSection, user: Seq<ServiceConfig>) -> Seq<ServiceView> {
    if rt.disabled {
        service_views(user)
    } else {
        seq![runtime_service(rt)] + service_views(user)
    }
}

/// The services to run: the runtime first, unless it is disabled, and the
/// user's behind it.
pub fn effective_services(rt: &RuntimeSection, user: &[ServiceConfig]) -> (r: Vec<ServiceConfig>)
    ensures
        service_views(r@) == (if rt.disabled {
            service_views(user@)
        } else {
            seq![runtime_service(*rt)] + service_views(user@)
        }),
        service_views(r@) == effective(*rt, user@),
{
    let mut out: Vec<ServiceConfig> = Vec::new();
    if !rt.disabled {
        out.push(containerd_service(rt));
    }
    let ghost first = service_views(out@);
    let ghost all = service_views(user@);
    let mut i: usize = 0;
    assert(first + all.take(0) =~= first);
    while i < user.len()
        invariant
            i <= user@.len(),
            all == service_views(user@),
            service_views(out@) == first + all.take(i as int),
        decreases user@.len() - i,
    {
        let s = user[i].clone();
        proof {
            assert(service_views(out@.push(s)) =~= service_views(out@).push(s@));
            assert(first + all.take(i + 1) =~= (first + all.take(i as int)).push(s@));
        }
        out.push(s);
        i += 1;
    }
    proof {
        assert(all.take(i as int) =~= all);
        if rt.disabled {
            assert(first + all =~= all);
        } else {
            assert(first =~= seq![runtime_service(*rt)]);
        }
    }
    out
}

/// Refuses services that use the id reserved for the runtime.
pub fn validate_services(user: &[ServiceConfig]) -> (r: Result<(), String>)
    ensures
        match r {
            Ok(_) => forall|i: int|
                0 <= i < user@.len() ==> (#[trigger] user@[i]).id@ != RUNTIME_SERVICE_ID@,
            Err(e) => (exists|i: int|
                0 <= i < user@.len() && (#[trigger] user@[i]).id@ == RUNTIME_SERVICE_ID@) && e@
                == "service id '"@ + RUNTIME_SERVICE_ID@ + "' is reserved"@,
        },
{
    let mut i: usize = 0;
    while i < user.len()
        invariant
            i <= user@.len(),
            forall|k: int| 0 <= k < i ==> (#[trigger] user@[k]).id@ != RUNTIME_SERVICE_ID@,
        decreases user@.len() - i,
    {
        if same(user[i].id.as_str(), RUNTIME_SERVICE_ID) {
            assert(user@[i as int].id@ == RUNTIME_SERVICE_ID@);
            let mut e = "service id '".to_owned();
            e.append(RUNTIME_SERVICE_ID);
            e.append("' is reserved");
            return Err(e);
        }
        i += 1;
    }
    Ok(())
}

/// Where the user's services are accepted, the runtime is the only service
/// with its id, and it comes first.
pub proof fn the_runtime_runs_once_and_first(rt: RuntimeSection, user: Seq<ServiceView>, i: int)
    requires
        !rt.disabled,
        forall|k: int| 0 <= k < user.len() ==> (#[trigger] user[k]).id != RUNTIME_SERVICE_ID@,
        0 <= i < user.len() + 1,
    ensures
        (seq![runtime_service(rt)] + user)[i].id == RUNTIME_SERVICE_ID@ <==> i == 0,
{
    if i > 0 {
        assert((seq![runtime_service(rt)] + user)[i] == user[i - 1]);
    }
}

/// The runtime is run with its configuration and is always restarted.
pub proof fn the_runtime_is_run_as_configured(rt: RuntimeSection, s: ServiceConfig)
    requires
        s@ == runtime_service(rt),
    ensures
        s.id@ == "containerd"@,
        s.command@.len() == 3,
        s.command@[0]@ == rt.binary@,
        s.command@[1]@ == "--config"@,
        s.command@[2]@ == rt.config_path@,
        s.depends_on@.len() == 0,
        s.restart is Always,
        s.stop_grace_secs is None,
{
    let c = crate::text::texts(s.command@);
    assert(c =~= seq![rt.binary@, "--config"@, rt.config_path@]);
    assert(c.len() == s.command@.len());
    assert(c[0] == s.command@[0]@ && c[1] == s.command@[1]@ && c[2] == s.command@[2]@);
    assert(crate::text::texts(s.depends_on@).len() == s.depends_on@.len());
}

/// Every service of the user's is run, in its place and as it is configured,
/// behind the runtime, which is run unless it is disabled; nothing else is run.
pub proof fn every_service_is_run_as_configured(
    rt: RuntimeSection,
    user: Seq<ServiceConfig>,
    r: Seq<ServiceConfig>,
    k: int,
)
    requires
        service_views(r) == effective(rt, user),
    ensures
        r.len() == user.len() + (if rt.disabled {
            0int
        } else {
            1
        }),
        0 <= k < user.len() ==> ({
            let s = if rt.disabled {
                r[k]
            } else {
                r[k + 1]
            };
            &&& s.id@ == user[k].id@
            &&& s.command@.len() == user[k].command@.len()
            &&& s.depends_on@.len() == user[k].depends_on@.len()
            &&& forall|i: int|
                0 <= i < s.command@.len() ==> (#[trigger] s.command@[i])@
                    == user[k].command@[i]@
            &&& forall|i: int|
                0 <= i < s.depends_on@.len() ==> (#[trigger] s.depends_on@[i])@
                    == user[k].depends_on@[i]@
            &&& s.restart == user[k].restart
            &&& s.stop_grace_secs == user[k].stop_grace_secs
        }),
{
    let all = effective(rt, user);
    assert(service_views(r).len() == r.len());
    if 0 <= k < user.len() {
        let j = if rt.disabled {
            k
        } else {
            k + 1
        };
        let s = r[j];
        assert(service_views(r)[j] == s@);
        assert(all[j] == service_views(user)[k]);
        assert(s@ == user[k]@);
        let (c, d) = (crate::text::texts(s.command@), crate::text::texts(s.depends_on@));
        assert(c == crate::text::texts(user[k].command@));
        assert(d == crate::text::texts(user[k].depends_on@));
        assert(c.len() == s.command@.len() && d.len() == s.depends_on@.len());
        assert forall|i: int| 0 <= i < s.command@.len() implies (#[trigger] s.command@[i])@
            == user[k].command@[i]@ by {
            assert(c[i] == s.command@[i]@);
        }
        assert forall|i: int| 0 <= i < s.depends_on@.len() implies (#[trigger] s.depends_on@[i])@
            == user[k].depends_on@[i]@ by {
            assert(d[i] == s.depends_on@[i]@);
        }
    }
}

/// The runtime is configured to listen on its socket and to make sandboxes of
/// the pause image.
pub proof fn the_runtime_listens_on_its_socket(rt: RuntimeSection)
    ensures
        crate::text::shows(runtime_config(rt), "address = \""@ + rt.socket@ + "\"\n"@),
        crate::text::shows(
            runtime_config(rt),
            "sandbox_image = \"registry.k8s.io/pause:3.10\"\n"@,
        ),
{
    reveal_strlit("address = \"");
    reveal_strlit("\"\n");
    reveal_strlit("registry.k8s.io/pause:3.10");
    reveal_strlit("sandbox_image = \"registry.k8s.io/pause:3.10\"\n");
    reveal_strlit(
        r#"version = 3
root = "/var/lib/containerd"
state = "/run/containerd"

[grpc]
  address = ""#,
    );
    reveal_strlit(
        r#""

[plugins.'io.containerd.cri.v1.runtime']
  sandbox_image = ""#,
    );
    reveal_strlit(
        r#""
  [plugins.'io.containerd.cri.v1.runtime'.containerd]
    default_runtime_name = "runc"

    [plugins.'io.containerd.cri.v1.runtime'.containerd.runtimes.runc]
      runtime_type = "io.containerd.runc.v2"

      [plugins.'io.containerd.cri.v1.runtime'.containerd.runtimes.runc.options]
        SystemdCgroup = false
        BinaryName = "/boot/bin/runc"
"#,
    );
    let (h, m, t) = (CONFIG_HEAD@, CONFIG_MIDDLE@, CONFIG_TAIL@);
    let s = rt.socket@;
    let a = "address = \""@;
    let b = "sandbox_image = \"registry.k8s.io/pause:3.10\"\n"@;
    let n = h.len() as int;
    assert(h.skip(n - a.len()) =~= a);
    assert(h =~= h.take(n - a.len()) + a);
    assert(m.take(2) =~= "\"\n"@);
    assert(m =~= "\"\n"@ + m.skip(2));
    crate::text::lemma_shows(
        runtime_config(rt),
        h.take(n - a.len()),
        a + s + "\"\n"@,
        m.skip(2) + PAUSE_IMAGE@ + t,
    );
    let k = m.len() - 17;
    assert(m.skip(k) + PAUSE_IMAGE@ + t.take(2) =~= b);
    crate::text::lemma_shows(
        runtime_config(rt),
        h + s + m.take(k),
        b,
        t.skip(2),
    );
}

} // verus!
