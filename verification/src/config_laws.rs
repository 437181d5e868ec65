//! Laws of connection settings: which setting each item comes from, what
//! decides that a password is needed, and how a TLS auth key is passed.
use vstd::prelude::*;

use crate::config::{
    config_from_settings, imported_fixed_args, imported_setting_args, lemma_args_begin_with_source,
    needs_password, openvpn_args, opt_pair, source_args, string_dict, tls_auth_args, ConfigView,
    NmValueView,
};

verus! {

// ---------------------------------------------------------------------------
// Laws of the settings, the secrets and the TLS auth key
// ---------------------------------------------------------------------------

/// Whether a password is still needed depends on nothing but whether one
/// is required and the password at hand: it is needed exactly when one is
/// required and none, or an empty one, is at hand, whatever the user name
/// or any other setting.
pub proof fn lemma_needs_password_depends_only_on_password(c1: ConfigView, c2: ConfigView)
    ensures
        needs_password(c1) == (c1.requires_password && (c1.password is None
            || c1.password->Some_0.len() == 0)),
        c1.requires_password == c2.requires_password && c1.password == c2.password
            ==> needs_password(c1) == needs_password(c2),
{
}

/// The settings of an imported connection hold the TLS auth options at
/// the place after the CA, certificate and key options.
proof fn lemma_imported_settings_hold_tls_auth(c: ConfigView, j: int)
    requires
        0 <= j < tls_auth_args(c.ta, c.ta_dir).len(),
    ensures
        ({
            let pre = opt_pair("--ca"@, c.ca) + opt_pair("--cert"@, c.cert) + opt_pair(
                "--key"@,
                c.key,
            );
            imported_setting_args(c)[pre.len() + j] == tls_auth_args(c.ta, c.ta_dir)[j]
                && pre.len() + j < imported_setting_args(c).len()
        }),
{
    let pre = opt_pair("--ca"@, c.ca) + opt_pair("--cert"@, c.cert) + opt_pair("--key"@, c.key);
    let t = tls_auth_args(c.ta, c.ta_dir);
    let y3 = pre + t;
    let y4 = y3 + opt_pair("--cipher"@, c.cipher);
    let y5 = y4 + opt_pair("--auth"@, c.auth);
    let y6 = y5 + opt_pair("--remote-cert-tls"@, c.remote_cert_tls);
    assert(y6 == imported_setting_args(c));
    let i = pre.len() + j;
    assert(y3[i] == t[j]);
    assert(y4[i] == y3[i]);
    assert(y5[i] == y4[i]);
    assert(y6[i] == y5[i]);
}

/// A connection without a config file that has a TLS auth key passes it
/// to OpenVPN as `--tls-auth` immediately followed by the key, whether or
/// not a key direction is given; a given direction follows the key.
pub proof fn lemma_tls_auth_key_is_passed(c: ConfigView, socket: Seq<char>)
    requires
        c.config_path is None,
        c.ta is Some,
    ensures
        ({
            let a = openvpn_args(c, socket);
            exists|i: int|
                0 <= i && i + 1 < a.len() && #[trigger] a[i] == "--tls-auth"@ && a[i + 1]
                    == c.ta->Some_0 && (c.ta_dir is Some ==> i + 2 < a.len() && a[i + 2]
                    == c.ta_dir->Some_0)
        }),
{
    let a = openvpn_args(c, socket);
    let f = imported_fixed_args(c.dev);
    let g = imported_setting_args(c);
    let pre = opt_pair("--ca"@, c.ca) + opt_pair("--cert"@, c.cert) + opt_pair("--key"@, c.key);
    let t = tls_auth_args(c.ta, c.ta_dir);
    assert(source_args(c) == f + g);
    let n: int = pre.len() as int;
    let i: int = 8 + n;
    lemma_imported_settings_hold_tls_auth(c, 0);
    lemma_imported_settings_hold_tls_auth(c, 1);
    assert((f + g)[i] == g[n]);
    assert((f + g)[i + 1] == g[n + 1]);
    lemma_args_begin_with_source(c, socket, i);
    lemma_args_begin_with_source(c, socket, i + 1);
    assert(t[0] == "--tls-auth"@);
    assert(t[1] == c.ta->Some_0);
    if c.ta_dir is Some {
        lemma_imported_settings_hold_tls_auth(c, 2);
        assert((f + g)[i + 2] == g[n + 2]);
        lemma_args_begin_with_source(c, socket, i + 2);
        assert(t[2] == c.ta_dir->Some_0);
    }
    assert(a[i] == "--tls-auth"@);
}

/// Each item of an accepted connection is the `vpn.data` entry of its own
/// key (absent when the entry is absent), and the password is the
/// `password` secret: no item is read from another key.
pub proof fn lemma_items_come_from_their_own_keys(s: Map<Seq<char>, Map<Seq<char>, NmValueView>>)
    requires
        config_from_settings(s) is Ok,
    ensures
        ({
            let c = config_from_settings(s)->Ok_0;
            let vpn = s["vpn"@];
            let data = match string_dict(vpn, "data"@) {
                Some(m) => m,
                None => Map::empty(),
            };
            let secrets = match string_dict(vpn, "secrets"@) {
                Some(m) => m,
                None => Map::empty(),
            };
            &&& s.contains_key("vpn"@)
            &&& forall|k: Seq<char>, v: Option<Seq<char>>|
                #![trigger item_is(data, k, v)]
                (k == "config"@ && v == c.config_path) || (k == "ca"@ && v == c.ca) || (k
                    == "cert"@ && v == c.cert) || (k == "key"@ && v == c.key) || (k == "ta"@
                    && v == c.ta) || (k == "ta-dir"@ && v == c.ta_dir) || (k == "cipher"@ && v
                    == c.cipher) || (k == "auth"@ && v == c.auth) || (k == "dev"@ && v == c.dev)
                    || (k == "remote-cert-tls"@ && v == c.remote_cert_tls) || (k
                    == "connection-type"@ && v == c.connection_type) || (k == "remote"@ && v
                    == c.remote) || (k == "proto"@ && v == c.protocol) ==> item_is(data, k, v)
            &&& item_is(secrets, "password"@, c.password)
        }),
{
}

/// `v` is what `m` holds under `k`: the value when the key is present,
/// nothing when it is absent.
pub open spec fn item_is(m: Map<Seq<char>, Seq<char>>, k: Seq<char>, v: Option<Seq<char>>) -> bool {
    match v {
        Some(x) => m.contains_key(k) && m[k] == x,
        None => !m.contains_key(k),
    }
}

} // verus!
