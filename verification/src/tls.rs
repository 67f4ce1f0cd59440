//! The certificate of the service.

use crate::text::{after_prefix, trim};
use tokio_rustls::rustls;
use vstd::prelude::*;
use vstd::slice::slice_to_vec;

verus! {

/// The error of the standard library's I/O.
#[verifier::external_type_specification]
#[verifier::external_body]
pub struct ExIoError(std::io::Error);

/// rustls's error.
#[verifier::external_type_specification]
#[verifier::external_body]
pub struct ExRustlsError(tokio_rustls::rustls::Error);

/// tokio-rustls's acceptor of TLS connections.
#[verifier::external_type_specification]
#[verifier::external_body]
pub struct ExTlsAcceptor(tokio_rustls::TlsAcceptor);

/// The acceptor of TLS connections.
pub type Acceptor = tokio_rustls::TlsAcceptor;

/// Where the certificate of the service lies.
#[derive(Debug, Clone)]
pub struct Config {
    pub cert: String,
    pub privkey: String,
    pub chain: String,
    pub fullchain: String,
}

/// The texts of some lines.
pub open spec fn lines_view(lines: Seq<String>) -> Seq<Seq<char>> {
    lines.map_values(|line: String| line@)
}

/// What stands, without the white space around it, behind `start` in the last
/// line that begins with it; nothing where there is no such line.
pub open spec fn setting(lines: Seq<Seq<char>>, start: Seq<char>) -> Seq<char>
    decreases lines.len(),
{
    if lines.len() == 0 {
        seq![]
    } else if start.is_prefix_of(lines.last()) {
        crate::text::trimmed(lines.last().skip(start.len() as int))
    } else {
        setting(lines.drop_last(), start)
    }
}

/// A line cannot begin with two of the four names.
proof fn lemma_one_start(line: Seq<char>)
    ensures
        "cert ="@.is_prefix_of(line) ==> !"privkey ="@.is_prefix_of(line)
            && !"chain ="@.is_prefix_of(line) && !"fullchain ="@.is_prefix_of(line),
        "privkey ="@.is_prefix_of(line) ==> !"chain ="@.is_prefix_of(line)
            && !"fullchain ="@.is_prefix_of(line),
        "chain ="@.is_prefix_of(line) ==> !"fullchain ="@.is_prefix_of(line),
{
    reveal_strlit("cert =");
    reveal_strlit("privkey =");
    reveal_strlit("chain =");
    reveal_strlit("fullchain =");
    if line.len() >= 2 {
        assert(forall|p: Seq<char>| #[trigger] p.is_prefix_of(line) && p.len() >= 2 ==> p[0] == line[0]
            && p[1] == line[1]);
    }
}

/// Reads where the certificate of the service lies from the lines of its renewal
/// configuration.
pub fn parse_config(lines: &Vec<String>) -> (r: Config)
    ensures
        r.cert@ == setting(lines_view(lines@), "cert ="@),
        r.privkey@ == setting(lines_view(lines@), "privkey ="@),
        r.chain@ == setting(lines_view(lines@), "chain ="@),
        r.fullchain@ == setting(lines_view(lines@), "fullchain ="@),
{
    let ghost all = lines_view(lines@);
    let mut cert = String::new();
    let mut privkey = String::new();
    let mut chain = String::new();
    let mut fullchain = String::new();
    let mut i: usize = 0;
    while i < lines.len()
        invariant
            i <= lines.len(),
            all == lines_view(lines@),
            cert@ == setting(all.take(i as int), "cert ="@),
            privkey@ == setting(all.take(i as int), "privkey ="@),
            chain@ == setting(all.take(i as int), "chain ="@),
            fullchain@ == setting(all.take(i as int), "fullchain ="@),
        decreases lines.len() - i,
    {
        let line = lines[i].as_str();
        proof {
            assert(all[i as int] == line@);
            assert(all.take(i + 1).drop_last() =~= all.take(i as int));
            assert(all.take(i + 1).last() == line@);
            lemma_one_start(line@);
        }
        if let Some(rest) = after_prefix(line, "cert =") {
            cert = trim(rest).to_owned();
        } else if let Some(rest) = after_prefix(line, "privkey =") {
            privkey = trim(rest).to_owned();
        } else if let Some(rest) = after_prefix(line, "chain =") {
            chain = trim(rest).to_owned();
        } else if let Some(rest) = after_prefix(line, "fullchain =") {
            fullchain = trim(rest).to_owned();
        }
        i = i + 1;
    }
    proof {
        assert(all.take(i as int) =~= all);
    }
    Config { cert, privkey, chain, fullchain }
}

/// A section of a PEM file.
pub enum PemItem {
    Certificate(Vec<u8>),
    RsaKey(Vec<u8>),
    Pkcs8Key(Vec<u8>),
    EcKey(Vec<u8>),
    /// Another section that can be told.
    Other,
}

/// What a section of a PEM file holds.
pub enum PemItemView {
    Certificate(Seq<u8>),
    RsaKey(Seq<u8>),
    Pkcs8Key(Seq<u8>),
    EcKey(Seq<u8>),
    Other,
}

impl View for PemItem {
    type V = PemItemView;

    open spec fn view(&self) -> PemItemView {
        match self {
            PemItem::Certificate(der) => PemItemView::Certificate(der@),
            PemItem::RsaKey(der) => PemItemView::RsaKey(der@),
            PemItem::Pkcs8Key(der) => PemItemView::Pkcs8Key(der@),
            PemItem::EcKey(der) => PemItemView::EcKey(der@),
            PemItem::Other => PemItemView::Other,
        }
    }
}

/// The first section that `rustls_pemfile::read_one` finds in the bytes, inside
/// `Some`; `Some(None)` where there is none, `None` where the bytes are refused.
pub uninterp spec fn first_pem_item(bytes: Seq<u8>) -> Option<Option<PemItemView>>;

/// The certificates that `rustls_pemfile::certs` finds in the bytes, `None` where
/// the bytes are refused.
pub uninterp spec fn pem_certificates(bytes: Seq<u8>) -> Option<Seq<Seq<u8>>>;

/// The certificates that an acceptor presents.
pub uninterp spec fn acceptor_chain(acceptor: Acceptor) -> Seq<Seq<u8>>;

/// The key that an acceptor signs with.
pub uninterp spec fn acceptor_key(acceptor: Acceptor) -> Seq<u8>;

/// Whether rustls takes a key, where `drawn` lists for each draw of random bytes
/// that it makes while it reads the key whether the machine gave them.
pub uninterp spec fn key_taken(key: Seq<u8>, drawn: Seq<bool>) -> bool;

/// Whether rustls may take a key, or may refuse it.
pub open spec fn may_decide(key: Seq<u8>, taken: bool) -> bool {
    exists|drawn: Seq<bool>| taken == #[trigger] key_taken(key, drawn)
}

/// The bytes of some certificates.
pub open spec fn chain_view(chain: Seq<Vec<u8>>) -> Seq<Seq<u8>> {
    chain.map_values(|der: Vec<u8>| der@)
}

/// `rustls_pemfile::read_one` on bytes in memory: the first section, if there is
/// one, or an error.
#[verifier::external_body]
fn read_pem_item(bytes: &[u8]) -> (r: Result<Option<PemItem>, std::io::Error>)
    ensures
        match r {
            Ok(Some(item)) => first_pem_item(bytes@) == Some(Some(item@)),
            Ok(None) => first_pem_item(bytes@) == Some(None::<PemItemView>),
            Err(_) => first_pem_item(bytes@) is None,
        },
{
    let mut reader: &[u8] = bytes;
    Ok(rustls_pemfile::read_one(&mut reader)?.map(|item| match item {
        rustls_pemfile::Item::X509Certificate(der) => PemItem::Certificate(der),
        rustls_pemfile::Item::RSAKey(der) => PemItem::RsaKey(der),
        rustls_pemfile::Item::PKCS8Key(der) => PemItem::Pkcs8Key(der),
        rustls_pemfile::Item::ECKey(der) => PemItem::EcKey(der),
        _ => PemItem::Other,
    }))
}

/// `rustls_pemfile::certs` on bytes in memory: the certificates, in order, or an
/// error.
#[verifier::external_body]
fn read_certificates(bytes: &[u8]) -> (r: Result<Vec<Vec<u8>>, std::io::Error>)
    ensures
        match r {
            Ok(chain) => pem_certificates(bytes@) == Some(chain_view(chain@)),
            Err(_) => pem_certificates(bytes@) is None,
        },
{
    let mut reader: &[u8] = bytes;
    rustls_pemfile::certs(&mut reader)
}

/// `ServerConfig::builder`, of rustls, with its safe defaults, without client
/// authentication, and with one certificate chain and its key
/// (`with_single_cert`), as an acceptor that presents the chain and signs with
/// the key. Whether it succeeds depends on the key alone, and, of some keys, on
/// whether the machine gives random bytes; which keys it takes is not said.
#[verifier::external_body]
fn build_acceptor(chain: Vec<Vec<u8>>, key: Vec<u8>) -> (r: Result<Acceptor, rustls::Error>)
    ensures
        r matches Ok(a) ==> acceptor_chain(a) == chain_view(chain@) && acceptor_key(a) == key@,
        exists|drawn: Seq<bool>| (r is Ok) == #[trigger] key_taken(key@, drawn),
{
    let config = rustls::ServerConfig::builder()
        .with_safe_defaults()
        .with_no_client_auth()
        .with_single_cert(
            chain.into_iter().map(rustls::Certificate).collect(),
            rustls::PrivateKey(key),
        )?;
    Ok(std::sync::Arc::new(config).into())
}

/// Why there is no private key.
pub enum KeyError {
    /// The file cannot be read as PEM.
    Unreadable(std::io::Error),
    /// The file does not begin with a private key.
    Invalid,
}

/// Why there is no acceptor.
pub enum AcceptorError {
    /// The file with the certificates cannot be read as PEM.
    Unreadable(std::io::Error),
    /// rustls refuses the key.
    Setup(rustls::Error),
}

/// The private key in a section, if it is one.
pub open spec fn key_in(item: Option<PemItemView>) -> Option<Seq<u8>> {
    match item {
        Some(PemItemView::RsaKey(der)) => Some(der),
        Some(PemItemView::Pkcs8Key(der)) => Some(der),
        Some(PemItemView::EcKey(der)) => Some(der),
        _ => None,
    }
}

/// The private key in a section, if it is one.
pub fn key_bytes(item: Option<PemItem>) -> (r: Option<Vec<u8>>)
    ensures
        key_in(
            match item {
                Some(i) => Some(i@),
                None => None,
            },
        ) == match r {
            Some(key) => Some(key@),
            None => None,
        },
{
    match item {
        Some(PemItem::RsaKey(der)) => Some(der),
        Some(PemItem::Pkcs8Key(der)) => Some(der),
        Some(PemItem::EcKey(der)) => Some(der),
        _ => None,
    }
}

/// The private key that a PEM file begins with.
pub fn private_key(pem: &[u8]) -> (r: Result<Vec<u8>, KeyError>)
    ensures
        match r {
            Ok(key) => first_pem_item(pem@) matches Some(item) && key_in(item) == Some(key@),
            Err(KeyError::Unreadable(_)) => first_pem_item(pem@) is None,
            Err(KeyError::Invalid) => first_pem_item(pem@) matches Some(item) && key_in(item)
                is None,
        },
{
    match read_pem_item(pem) {
        Ok(item) => match key_bytes(item) {
            Some(key) => Ok(key),
            None => Err(KeyError::Invalid),
        },
        Err(e) => Err(KeyError::Unreadable(e)),
    }
}

/// The acceptor of TLS connections with a private key and the certificates in a
/// PEM file. Where the file can be read as PEM, there is an acceptor if rustls
/// takes the key.
pub fn acceptor(key: Vec<u8>, chain_pem: &[u8]) -> (r: Result<Acceptor, AcceptorError>)
    ensures
        match r {
            Ok(a) => {
                &&& pem_certificates(chain_pem@) == Some(acceptor_chain(a))
                &&& acceptor_key(a) == key@
            },
            Err(AcceptorError::Unreadable(_)) => pem_certificates(chain_pem@) is None,
            Err(AcceptorError::Setup(_)) => pem_certificates(chain_pem@) is Some,
        },
        pem_certificates(chain_pem@) is Some ==> may_decide(key@, r is Ok),
{
    match read_certificates(chain_pem) {
        Ok(chain) => match build_acceptor(chain, key) {
            Ok(a) => Ok(a),
            Err(e) => Err(AcceptorError::Setup(e)),
        },
        Err(e) => Err(AcceptorError::Unreadable(e)),
    }
}

/// Why the service has no acceptor.
pub enum SetupError {
    /// A file cannot be read.
    File(std::io::Error),
    /// There is no private key.
    Key(KeyError),
    /// There is no acceptor for the key.
    Acceptor(AcceptorError),
}

/// What to do next to set up the acceptor.
pub enum SetupAction {
    /// Read this file.
    Read(String),
    /// The acceptor is there.
    Done(Acceptor),
    /// Give up.
    Failed(SetupError),
}

/// The setting up of the acceptor, one file after the other.
pub struct Setup {
    fullchain: String,
    key: Option<Vec<u8>>,
}

/// How far the setting up of the acceptor has come.
pub struct SetupView {
    /// The file with the certificates.
    pub fullchain: Seq<char>,
    /// The private key, when its file has been read.
    pub key: Option<Seq<u8>>,
}

impl View for Setup {
    type V = SetupView;

    closed spec fn view(&self) -> SetupView {
        SetupView {
            fullchain: self.fullchain@,
            key: match self.key {
                Some(key) => Some(key@),
                None => None,
            },
        }
    }
}

/// What comes of the files of a certificate.
pub enum Outcome {
    NoKeyFile,
    KeyUnreadable,
    KeyInvalid,
    NoChainFile,
    ChainUnreadable,
    /// These certificates and this key are handed to rustls.
    Offered(Seq<Seq<u8>>, Seq<u8>),
}

/// What comes of the file with the key: the key, or an end.
pub open spec fn key_outcome(file: Option<Seq<u8>>) -> Result<Seq<u8>, Outcome> {
    match file {
        None => Err(Outcome::NoKeyFile),
        Some(pem) => match first_pem_item(pem) {
            None => Err(Outcome::KeyUnreadable),
            Some(item) => match key_in(item) {
                None => Err(Outcome::KeyInvalid),
                Some(key) => Ok(key),
            },
        },
    }
}

/// What comes of the file with the certificates, with the key at hand.
pub open spec fn chain_outcome(key: Seq<u8>, file: Option<Seq<u8>>) -> Outcome {
    match file {
        None => Outcome::NoChainFile,
        Some(pem) => match pem_certificates(pem) {
            None => Outcome::ChainUnreadable,
            Some(chain) => Outcome::Offered(chain, key),
        },
    }
}

/// What comes of a configuration, where `files` holds the files that can be read.
pub open spec fn setup_outcome(config: Config, files: Map<Seq<char>, Seq<u8>>) -> Outcome {
    match key_outcome(files.get(config.privkey@)) {
        Err(end) => end,
        Ok(key) => chain_outcome(key, files.get(config.fullchain@)),
    }
}

/// Whether setting up may end with `action` when this comes of the files.
pub open spec fn ends_with(outcome: Outcome, action: SetupAction) -> bool {
    match outcome {
        Outcome::NoKeyFile => action matches SetupAction::Failed(SetupError::File(_)),
        Outcome::KeyUnreadable => action matches SetupAction::Failed(
            SetupError::Key(KeyError::Unreadable(_)),
        ),
        Outcome::KeyInvalid => action matches SetupAction::Failed(
            SetupError::Key(KeyError::Invalid),
        ),
        Outcome::NoChainFile => action matches SetupAction::Failed(SetupError::File(_)),
        Outcome::ChainUnreadable => action matches SetupAction::Failed(
            SetupError::Acceptor(AcceptorError::Unreadable(_)),
        ),
        Outcome::Offered(chain, key) => {
            &&& match action {
                SetupAction::Done(a) => acceptor_chain(a) == chain && acceptor_key(a) == key,
                SetupAction::Failed(SetupError::Acceptor(AcceptorError::Setup(_))) => true,
                _ => false,
            }
            &&& may_decide(key, action is Done)
        },
    }
}

/// The bytes of a file that was read.
pub open spec fn file_view(file: Result<Vec<u8>, std::io::Error>) -> Option<Seq<u8>> {
    match file {
        Ok(bytes) => Some(bytes@),
        Err(_) => None,
    }
}

impl Setup {
    /// Starts with a configuration, and says which file to read first: that with
    /// the key.
    pub fn begin(config: &Config) -> (r: (Setup, String))
        ensures
            r.0@ == (SetupView { fullchain: config.fullchain@, key: None }),
            r.1@ == config.privkey@,
    {
        (Setup { fullchain: config.fullchain.clone(), key: None }, config.privkey.clone())
    }

    /// Takes a file that was to be read. Behind the file with the key, that with
    /// the certificates is read; behind that one, the acceptor is made.
    pub fn receive(&mut self, file: Result<Vec<u8>, std::io::Error>) -> (r: SetupAction)
        ensures
            match old(self)@.key {
                None => match key_outcome(file_view(file)) {
                    Ok(key) => {
                        &&& r matches SetupAction::Read(path) && path@ == old(self)@.fullchain
                        &&& final(self)@ == (SetupView { key: Some(key), ..old(self)@ })
                    },
                    Err(end) => ends_with(end, r) && final(self)@ == old(self)@,
                },
                Some(key) => {
                    &&& ends_with(chain_outcome(key, file_view(file)), r)
                    &&& final(self)@ == old(self)@
                },
            },
            file matches Err(e) ==> r == SetupAction::Failed(SetupError::File(e)),
    {
        match file {
            Err(e) => SetupAction::Failed(SetupError::File(e)),
            Ok(bytes) => match &self.key {
                None => match private_key(bytes.as_slice()) {
                    Ok(key) => {
                        self.key = Some(key);
                        SetupAction::Read(self.fullchain.clone())
                    },
                    Err(e) => SetupAction::Failed(SetupError::Key(e)),
                },
                Some(key) => {
                    let copy = slice_to_vec(key.as_slice());
                    proof {
                        assert(copy@ =~= key@);
                    }
                    let r = match acceptor(copy, bytes.as_slice()) {
                        Ok(a) => SetupAction::Done(a),
                        Err(e) => SetupAction::Failed(SetupError::Acceptor(e)),
                    };
                    r
                },
            },
        }
    }
}

/// Nothing of a configuration counts but the key's file and that of the full
/// chain: two configurations that name the same two have the same outcome, even
/// where the other files that they name differ or do not exist.
pub proof fn law_only_key_and_full_chain_count(
    a: Config,
    b: Config,
    files_a: Map<Seq<char>, Seq<u8>>,
    files_b: Map<Seq<char>, Seq<u8>>,
)
    requires
        a.privkey@ == b.privkey@,
        a.fullchain@ == b.fullchain@,
        files_a.get(a.privkey@) == files_b.get(a.privkey@),
        files_a.get(a.fullchain@) == files_b.get(a.fullchain@),
    ensures
        setup_outcome(a, files_a) == setup_outcome(b, files_b),
{
}

/// Of several lines for one setting the last one counts, and lines that do not
/// begin with its name do not matter to it.
pub proof fn law_last_line_counts(before: Seq<Seq<char>>, line: Seq<char>, after: Seq<Seq<char>>, start: Seq<char>)
    requires
        forall|i: int| 0 <= i < after.len() ==> !start.is_prefix_of(#[trigger] after[i]),
    ensures
        setting(before.push(line) + after, start) == if start.is_prefix_of(line) {
            crate::text::trimmed(line.skip(start.len() as int))
        } else {
            setting(before, start)
        },
    decreases after.len(),
{
    let lines = before.push(line) + after;
    if after.len() == 0 {
        assert(lines =~= before.push(line));
        assert(lines.drop_last() =~= before);
    } else {
        let init = after.drop_last();
        assert(!start.is_prefix_of(after[after.len() - 1]));
        assert forall|i: int| 0 <= i < init.len() implies !start.is_prefix_of(#[trigger] init[i]) by {
            assert(init[i] == after[i]);
        }
        law_last_line_counts(before, line, init, start);
        assert(lines.drop_last() =~= before.push(line) + init);
        assert(lines.last() == after[after.len() - 1]);
    }
}

/// The last line that begins with `start` is the one in place `i`.
pub open spec fn is_last(lines: Seq<String>, i: int, start: Seq<char>) -> bool {
    &&& 0 <= i < lines.len()
    &&& start.is_prefix_of(lines[i]@)
    &&& forall|k: int| i < k < lines.len() ==> !start.is_prefix_of((#[trigger] lines[k])@)
}

/// No line begins with `start`.
pub open spec fn is_missing(lines: Seq<String>, start: Seq<char>) -> bool {
    forall|k: int| 0 <= k < lines.len() ==> !start.is_prefix_of((#[trigger] lines[k])@)
}

/// What a setting is when the last line for it stands in place `i`, wherever that is
/// among the lines.
proof fn lemma_setting(lines: Seq<String>, i: int, start: Seq<char>)
    ensures
        is_last(lines, i, start) ==> setting(lines_view(lines), start) == crate::text::trimmed(
            lines[i]@.skip(start.len() as int),
        ),
        is_missing(lines, start) ==> setting(lines_view(lines), start) == Seq::<char>::empty(),
    decreases lines.len(),
{
    if lines.len() > 0 {
        let init = lines.drop_last();
        lemma_setting(init, i, start);
        assert(lines_view(lines).drop_last() =~= lines_view(init));
        assert(lines_view(lines).last() == lines[lines.len() - 1]@);
        if is_last(lines, i, start) && i < lines.len() - 1 {
            assert(!start.is_prefix_of(lines[lines.len() - 1]@));
            assert(is_last(init, i, start)) by {
                assert forall|k: int| i < k < init.len() implies !start.is_prefix_of(
                    (#[trigger] init[k])@,
                ) by {
                    assert(init[k] == lines[k]);
                }
            }
        }
        if is_missing(lines, start) {
            assert(!start.is_prefix_of(lines[lines.len() - 1]@));
            assert forall|k: int| 0 <= k < init.len() implies !start.is_prefix_of(
                (#[trigger] init[k])@,
            ) by {
                assert(init[k] == lines[k]);
            }
        }
    }
}

/// Each of the four settings is what stands, without the white space around it,
/// behind its own name in the last line that begins with that name, wherever that
/// line stands; without such a line it is empty.
pub proof fn law_settings_are_read(lines: Vec<String>, i: int, r: Config)
    requires
        call_ensures(parse_config, (&lines,), r),
    ensures
        is_last(lines@, i, "cert ="@) ==> r.cert@ == crate::text::trimmed(lines@[i]@.skip(6)),
        is_missing(lines@, "cert ="@) ==> r.cert@.len() == 0,
        is_last(lines@, i, "privkey ="@) ==> r.privkey@ == crate::text::trimmed(lines@[i]@.skip(9)),
        is_missing(lines@, "privkey ="@) ==> r.privkey@.len() == 0,
        is_last(lines@, i, "chain ="@) ==> r.chain@ == crate::text::trimmed(lines@[i]@.skip(7)),
        is_missing(lines@, "chain ="@) ==> r.chain@.len() == 0,
        is_last(lines@, i, "fullchain ="@) ==> r.fullchain@ == crate::text::trimmed(
            lines@[i]@.skip(11),
        ),
        is_missing(lines@, "fullchain ="@) ==> r.fullchain@.len() == 0,
{
    reveal_strlit("cert =");
    reveal_strlit("privkey =");
    reveal_strlit("chain =");
    reveal_strlit("fullchain =");
    lemma_setting(lines@, i, "cert ="@);
    lemma_setting(lines@, i, "privkey ="@);
    lemma_setting(lines@, i, "chain ="@);
    lemma_setting(lines@, i, "fullchain ="@);
}

/// A key of any of the three kinds is taken, with all of its bytes, and nothing else
/// is.
pub proof fn law_three_kinds_of_keys(item: Option<PemItem>, r: Option<Vec<u8>>)
    requires
        call_ensures(key_bytes, (item,), r),
    ensures
        item matches Some(PemItem::RsaKey(der)) ==> (r matches Some(key) && key@ == der@),
        item matches Some(PemItem::Pkcs8Key(der)) ==> (r matches Some(key) && key@ == der@),
        item matches Some(PemItem::EcKey(der)) ==> (r matches Some(key) && key@ == der@),
        item matches Some(PemItem::Certificate(_)) ==> r is None,
        item matches Some(PemItem::Other) ==> r is None,
        item is None ==> r is None,
{
}

/// The key that a file begins with is taken; a file that begins with anything else,
/// or with nothing, holds no valid key; and a file that is no PEM cannot be read.
pub proof fn law_key_is_what_the_file_begins_with(
    pem: &[u8],
    der: Seq<u8>,
    r: Result<Vec<u8>, KeyError>,
)
    requires
        call_ensures(private_key, (pem,), r),
    ensures
        first_pem_item(pem@) == Some(Some(PemItemView::RsaKey(der))) || first_pem_item(pem@) == Some(
            Some(PemItemView::Pkcs8Key(der)),
        ) || first_pem_item(pem@) == Some(Some(PemItemView::EcKey(der))) ==> (r matches Ok(key)
            && key@ == der),
        first_pem_item(pem@) == Some(Some(PemItemView::Certificate(der))) || first_pem_item(pem@)
            == Some(Some(PemItemView::Other)) || first_pem_item(pem@) == Some(None::<PemItemView>)
            ==> (r matches Err(e) && e is Invalid),
        first_pem_item(pem@) is None <==> (r matches Err(e) && e is Unreadable),
{
}

/// An acceptor presents all the certificates of the file, in order, and signs with
/// the key that was given. There is one where the file is PEM and rustls takes the
/// key, and none where it is not or rustls does not.
pub proof fn law_acceptor_has_chain_and_key(
    key: Vec<u8>,
    chain_pem: &[u8],
    chain: Seq<Seq<u8>>,
    r: Result<Acceptor, AcceptorError>,
)
    requires
        call_ensures(acceptor, (key, chain_pem), r),
    ensures
        pem_certificates(chain_pem@) is None <==> (r matches Err(e) && e is Unreadable),
        pem_certificates(chain_pem@) == Some(chain) ==> (r matches Ok(a) ==> acceptor_chain(a)
            == chain && acceptor_key(a) == key@),
        pem_certificates(chain_pem@) is Some && (forall|drawn: Seq<bool>| #[trigger]
            key_taken(key@, drawn)) ==> r is Ok,
        pem_certificates(chain_pem@) is Some && (forall|drawn: Seq<bool>| !(#[trigger] key_taken(
            key@,
            drawn,
        ))) ==> (r matches Err(e) && e is Setup),
{
    if pem_certificates(chain_pem@) is Some {
        assert(may_decide(key@, r is Ok));
        let drawn = choose|drawn: Seq<bool>| (r is Ok) == #[trigger] key_taken(key@, drawn);
        assert((r is Ok) == key_taken(key@, drawn));
    }
}

/// The first file that is read is that of the key, and only when it holds a key is
/// the full chain read; where it cannot be read, is no PEM or holds no key, the
/// setting up ends, and says so.
pub proof fn law_key_is_read_first(
    config: Config,
    setup: &mut Setup,
    path: String,
    file: Result<Vec<u8>, std::io::Error>,
    der: Seq<u8>,
    r: SetupAction,
)
    requires
        call_ensures(Setup::begin, (&config,), (*old(setup), path)),
        call_ensures(Setup::receive, (setup, file), r),
    ensures
        path@ == config.privkey@,
        file matches Err(e) ==> r == SetupAction::Failed(SetupError::File(e)),
        file matches Ok(pem) ==> {
            let item = first_pem_item(pem@);
            &&& item == Some(Some(PemItemView::RsaKey(der))) || item == Some(
                Some(PemItemView::Pkcs8Key(der)),
            ) || item == Some(Some(PemItemView::EcKey(der))) ==> (r matches SetupAction::Read(next)
                && next@ == config.fullchain@ && final(setup)@.key == Some(der))
            &&& item == Some(Some(PemItemView::Certificate(der))) || item == Some(
                Some(PemItemView::Other),
            ) || item == Some(None::<PemItemView>) ==> (r matches SetupAction::Failed(
                SetupError::Key(KeyError::Invalid),
            ))
            &&& item is None ==> (r matches SetupAction::Failed(
                SetupError::Key(KeyError::Unreadable(_)),
            ))
        },
{
}

/// With the key at hand, the file that is read is that of the full chain: the
/// acceptor presents what it holds and signs with the key, if rustls takes that.
pub proof fn law_full_chain_is_read_second(
    setup: &mut Setup,
    key: Seq<u8>,
    file: Result<Vec<u8>, std::io::Error>,
    chain: Seq<Seq<u8>>,
    r: SetupAction,
)
    requires
        old(setup)@.key == Some(key),
        call_ensures(Setup::receive, (setup, file), r),
    ensures
        file matches Err(e) ==> r == SetupAction::Failed(SetupError::File(e)),
        file matches Ok(pem) ==> {
            &&& pem_certificates(pem@) is None ==> (r matches SetupAction::Failed(
                SetupError::Acceptor(AcceptorError::Unreadable(_)),
            ))
            &&& pem_certificates(pem@) == Some(chain) ==> (r matches SetupAction::Done(a)
                ==> acceptor_chain(a) == chain && acceptor_key(a) == key)
            &&& pem_certificates(pem@) is Some && (forall|drawn: Seq<bool>| #[trigger]
                key_taken(key, drawn)) ==> r is Done
            &&& pem_certificates(pem@) is Some && (forall|drawn: Seq<bool>| !(#[trigger] key_taken(
                key,
                drawn,
            ))) ==> (r matches SetupAction::Failed(SetupError::Acceptor(AcceptorError::Setup(_))))
        },
{
    if let Ok(pem) = file {
        if pem_certificates(pem@) is Some {
            assert(may_decide(key, r is Done));
            let drawn = choose|drawn: Seq<bool>| (r is Done) == #[trigger] key_taken(key, drawn);
            assert((r is Done) == key_taken(key, drawn));
        }
    }
}

} // verus!
