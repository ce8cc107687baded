//! The relational store, modeled in memory: categories, flows, the settings
//! payload and the migration ledger, with the cipher applied transparently
//! to the settings payload.
//!
//! The embedded store file is the caller's concern: rows come in when the
//! store is opened and go back out through the load functions.  Every
//! operation here is atomic — an error leaves the store exactly as it was.

use vstd::prelude::*;
use vstd::pervasive::VecAdditionalExecFns;
use crate::encryption::{DatabaseEncryption, decrypt_spec, derived_key};
use crate::encryption_config::EncryptionConfig;
use crate::errors::StoreError;
use crate::migrations::{MigrationRecord, run_migrations, has_schema_changes,
    migrate_flows_to_new_category, schema_changed, flow_migrated, ledger_has,
    NUMERIC_MIGRATION_VERSION};
use crate::models::{Category, Flow, cat_ids_unique, flow_ids_unique, wf_category, wf_flow,
    cat_same, flow_same, clone_category, clone_flow, str_eq, get_default_categories};

verus! {

/// The ids of the pre-defined seed categories, in order.
pub open spec fn is_default_seed(cats: Seq<Category>) -> bool {
    cats.len() == 9 && cats[0].id@ == "salary"@ && cats[1].id@ == "passive_income"@ && cats[2].id@
        == "taxes_paid"@ && cats[3].id@ == "cash_donations"@ && cats[4].id@
        == "in_kind_donations"@ && cats[5].id@ == "medical"@ && cats[6].id@ == "dental"@
        && cats[7].id@ == "other_expense"@ && cats[8].id@ == "other_income"@
}

/// The nine seed ids are pairwise distinct: no two agree on both length
/// and first character.
proof fn lemma_default_seed_ids_unique(cats: Seq<Category>)
    requires
        is_default_seed(cats),
    ensures
        cat_ids_unique(cats),
{
    reveal_strlit("salary");
    reveal_strlit("passive_income");
    reveal_strlit("taxes_paid");
    reveal_strlit("cash_donations");
    reveal_strlit("in_kind_donations");
    reveal_strlit("medical");
    reveal_strlit("dental");
    reveal_strlit("other_expense");
    reveal_strlit("other_income");
    assert(cats[0].id@.len() == 6 && cats[0].id@[0] == 's');
    assert(cats[1].id@.len() == 14 && cats[1].id@[0] == 'p');
    assert(cats[2].id@.len() == 10 && cats[2].id@[0] == 't');
    assert(cats[3].id@.len() == 14 && cats[3].id@[0] == 'c');
    assert(cats[4].id@.len() == 17 && cats[4].id@[0] == 'i');
    assert(cats[5].id@.len() == 7 && cats[5].id@[0] == 'm');
    assert(cats[6].id@.len() == 6 && cats[6].id@[0] == 'd');
    assert(cats[7].id@.len() == 13 && cats[7].id@[0] == 'o');
    assert(cats[8].id@.len() == 12 && cats[8].id@[0] == 'o');
    assert forall|a: int, b: int| 0 <= a < b < cats.len() implies (#[trigger] cats[a]).id@ != (
    #[trigger] cats[b]).id@ by {
        assert(cats[a].id@.len() != cats[b].id@.len() || cats[a].id@[0] != cats[b].id@[0]);
    }
}

/// The in-memory model of the store.
pub struct Database {
    categories: Vec<Category>,
    flows: Vec<Flow>,
    settings_payload: Option<String>,
    ledger: Vec<MigrationRecord>,
    encryption: Option<DatabaseEncryption>,
    encryption_config: EncryptionConfig,
}

impl Database {
    /// The stored categories.
    pub closed spec fn spec_categories(&self) -> Seq<Category> {
        self.categories@
    }

    /// The stored flows.
    pub closed spec fn spec_flows(&self) -> Seq<Flow> {
        self.flows@
    }

    /// The settings payload exactly as stored (encrypted when a cipher was
    /// active at the time it was saved).
    pub closed spec fn spec_stored_settings(&self) -> Option<Seq<char>> {
        match self.settings_payload {
            Some(p) => Some(p@),
            None => None,
        }
    }

    /// The migration ledger.
    pub closed spec fn spec_ledger(&self) -> Seq<MigrationRecord> {
        self.ledger@
    }

    /// The encryption configuration the store was opened with.
    pub closed spec fn spec_config(&self) -> EncryptionConfig {
        self.encryption_config
    }

    /// The active cipher key, when one is held.
    pub closed spec fn spec_cipher(&self) -> Option<Seq<u8>> {
        match self.encryption {
            Some(e) => Some(e.spec_key()),
            None => None,
        }
    }

    /// Ids are unique, every row is well formed, and the cipher key (when
    /// held) is a proper key.
    pub closed spec fn wf(&self) -> bool {
        cat_ids_unique(self.categories@) && flow_ids_unique(self.flows@) && (forall|i: int|
            0 <= i < self.categories@.len() ==> wf_category(#[trigger] self.categories@[i])) && (
        forall|i: int|
            0 <= i < self.flows@.len() ==> wf_flow(#[trigger] self.flows@[i])) && (match self
            .encryption {
            Some(e) => e.wf(),
            None => true,
        })
    }

    /// A store with nothing in it: the fallback that always succeeds, so the
    /// application can start even when the store file is unusable.
    pub fn new_minimal(encryption_config: EncryptionConfig) -> (r: Database)
        ensures
            r.wf(),
            r.spec_categories().len() == 0,
            r.spec_flows().len() == 0,
            r.spec_stored_settings() is None,
            r.spec_ledger().len() == 0,
            r.spec_cipher() is None,
            r.spec_config() == encryption_config,
    {
        Database {
            categories: Vec::new(),
            flows: Vec::new(),
            settings_payload: None,
            ledger: Vec::new(),
            encryption: None,
            encryption_config,
        }
    }

    /// Open the store over the rows read from the store file: reject
    /// malformed row sets, run the pending versioned migrations, and seed
    /// the default categories when none are stored.  Callers seed default
    /// settings separately, since the settings payload is opaque here.
    pub fn new(
        categories: Vec<Category>,
        flows: Vec<Flow>,
        settings_payload: Option<String>,
        ledger: Vec<MigrationRecord>,
        encryption_config: EncryptionConfig,
    ) -> (r: Result<Database, StoreError>)
        ensures
            r is Ok <==> rows_ok(categories@, flows@),
            match r {
                Ok(db) => {
                    &&& db.wf()
                    &&& db.spec_config() == encryption_config
                    &&& db.spec_cipher() is None
                    &&& ledger_has(
                        db.spec_ledger(),
                        "convert_number_to_float"@,
                        NUMERIC_MIGRATION_VERSION as int,
                    )
                    &&& categories@.len() == 0 ==> is_default_seed(db.spec_categories())
                    &&& categories@.len() > 0 ==> db.spec_categories().len()
                        == categories@.len() && (forall|i: int|
                        0 <= i < categories@.len() ==> crate::migrations::category_normalized(
                            #[trigger] db.spec_categories()[i],
                            categories@[i],
                        ) || db.spec_categories()[i] == categories@[i])
                    &&& db.spec_flows() == flows@
                    &&& db.spec_stored_settings() == opt_text(settings_payload)
                    &&& db.spec_ledger().len() >= ledger@.len()
                    &&& db.spec_ledger().take(ledger@.len() as int) == ledger@
                },
                Err(e) => e == StoreError::SerializationError && !rows_ok(
                    categories@,
                    flows@,
                ),
            },
    {
        if !rows_well_formed(&categories, &flows) {
            return Err(StoreError::SerializationError);
        }
        let mut cats = categories;
        let mut led = ledger;
        let had_rows = cats.len() > 0;
        if !had_rows {
            cats = get_default_categories();
            proof {
                assert(is_default_seed(cats@));
                lemma_default_seed_ids_unique(cats@);
            }
        }
        let ghost before_migration = cats@;
        match run_migrations(&mut cats, &mut led) {
            Ok(()) => {},
            Err(e) => {
                return Err(StoreError::SerializationError);
            },
        }
        proof {
            lemma_normalized_rows_keep_wf(before_migration, cats@);
        }
        Ok(Database { categories: cats, flows, settings_payload, ledger: led, encryption: None, encryption_config })
    }

    /// Encryption is configured and a password is set, whether or not any
    /// payload has actually been encrypted yet.
    pub fn is_encrypted(&self) -> (r: bool)
        ensures
            r == self.spec_config().spec_ready(),
    {
        self.encryption_config.is_encryption_ready()
    }

    /// First-time encryption setup: choose a salt, derive the key, and
    /// self-test the cipher; only then is the configuration committed and
    /// the cipher held, so a failure leaves nothing half-set.  A store whose
    /// configuration is already ready is left untouched.
    pub fn initialize_encryption(&mut self, password: &str) -> (r: Result<(), StoreError>)
        requires
            old(self).wf(),
        ensures
            final(self).wf(),
            final(self).spec_categories() == old(self).spec_categories(),
            final(self).spec_flows() == old(self).spec_flows(),
            final(self).spec_stored_settings() == old(self).spec_stored_settings(),
            final(self).spec_ledger() == old(self).spec_ledger(),
            old(self).spec_config().spec_ready() ==> r is Ok && *final(self) == *old(self),
            match r {
                Ok(()) => !old(self).spec_config().spec_ready() ==> {
                    &&& final(self).spec_config().spec_ready()
                    &&& final(self).spec_config().database_encrypted
                    &&& config_accepts(final(self).spec_config(), password@)
                    &&& final(self).spec_config().salt matches Some(s) && final(self).spec_cipher() == Some(derived_key(password@, s@))
                },
                Err(e) => e == StoreError::EncryptError && *final(self) == *old(self),
            },
    {
        if self.encryption_config.is_encryption_ready() {
            return Ok(());
        }
        let salt = DatabaseEncryption::generate_salt();
        let cipher = match DatabaseEncryption::new(password, salt.as_str()) {
            Ok(c) => c,
            Err(e) => {
                // Unreachable: key derivation is total.
                return Err(StoreError::EncryptError);
            },
        };
        // Self-test before committing anything: a freshly sealed probe must
        // open to the same text.
        let probe = "encryption_test";
        match cipher.encrypt(probe) {
            Ok(sealed) => {
                match cipher.decrypt(sealed.as_str()) {
                    Ok(back) => {
                        let ok = str_eq(back.as_str(), probe);
                        proof {
                            assert(ok);
                        }
                        if !ok {
                            return Err(StoreError::EncryptError);
                        }
                    },
                    Err(_) => {
                        proof {
                            assert(false);
                        }
                        return Err(StoreError::EncryptError);
                    },
                }
            },
            Err(_) => {
                // The cipher refused the probe; nothing was committed.
                return Err(StoreError::EncryptError);
            },
        }
        let password_hash = DatabaseEncryption::hash_password(password, salt.as_str());
        self.encryption_config.password_hash = Some(password_hash);
        self.encryption_config.salt = Some(salt);
        self.encryption_config.enabled = true;
        self.encryption_config.database_encrypted = true;
        self.encryption = Some(cipher);
        Ok(())
    }

    /// Hold the cipher for a previously verified password and salt, or drop
    /// it when encryption is disabled.
    pub fn set_encryption_state(
        &mut self,
        enabled: bool,
        password: Option<&str>,
        salt: Option<&str>,
    ) -> (r: Result<(), StoreError>)
        requires
            old(self).wf(),
        ensures
            final(self).wf(),
            final(self).spec_categories() == old(self).spec_categories(),
            final(self).spec_flows() == old(self).spec_flows(),
            final(self).spec_stored_settings() == old(self).spec_stored_settings(),
            final(self).spec_ledger() == old(self).spec_ledger(),
            final(self).spec_config() == old(self).spec_config(),
            match r {
                Ok(()) => if enabled {
                    password matches Some(p) && salt matches Some(s) && final(self).spec_cipher()
                        == Some(derived_key(p@, s@))
                } else {
                    final(self).spec_cipher() is None
                },
                Err(e) => e == StoreError::PasswordRequired && enabled && (password is None
                    || salt is None) && *final(self) == *old(self),
            },
    {
        if enabled {
            match (password, salt) {
                (Some(pwd), Some(salt_val)) => {
                    match DatabaseEncryption::new(pwd, salt_val) {
                        Ok(c) => {
                            self.encryption = Some(c);
                            Ok(())
                        },
                        Err(_) => {
                            // Unreachable: key derivation is total.
                            Err(StoreError::PasswordRequired)
                        },
                    }
                },
                _ => Err(StoreError::PasswordRequired),
            }
        } else {
            self.encryption = None;
            Ok(())
        }
    }

    /// Seal a payload under the held cipher, or pass it through untouched
    /// when encryption is off.
    fn encrypt_data(&self, data: &str) -> (r: Result<String, StoreError>)
        requires
            self.wf(),
        ensures
            match r {
                Ok(p) => match self.spec_cipher() {
                    Some(k) => decrypt_spec(k, p@) == Some(data@),
                    None => p@ == data@,
                },
                Err(e) => e == StoreError::EncryptError && self.spec_cipher() is Some,
            },
    {
        match &self.encryption {
            Some(encryption) => encryption.encrypt(data),
            None => Ok(data.to_owned()),
        }
    }

    /// Open a stored payload under the held cipher, or pass it through
    /// untouched when encryption is off.
    fn decrypt_data(&self, data: &str) -> (r: Result<String, StoreError>)
        requires
            self.wf(),
        ensures
            match r {
                Ok(p) => match self.spec_cipher() {
                    Some(k) => decrypt_spec(k, data@) == Some(p@),
                    None => p@ == data@,
                },
                Err(e) => e == StoreError::DecryptError && self.spec_cipher() is Some
                    && decrypt_spec(self.spec_cipher().unwrap(), data@) is None,
            },
    {
        match &self.encryption {
            Some(encryption) => encryption.decrypt(data),
            None => Ok(data.to_owned()),
        }
    }

    /// Store the settings payload, sealed when encryption is active.  The
    /// caller serializes the settings value to its text payload.
    pub fn save_user_settings(&mut self, payload: &str) -> (r: Result<(), StoreError>)
        requires
            old(self).wf(),
        ensures
            final(self).wf(),
            final(self).spec_categories() == old(self).spec_categories(),
            final(self).spec_flows() == old(self).spec_flows(),
            final(self).spec_ledger() == old(self).spec_ledger(),
            final(self).spec_config() == old(self).spec_config(),
            final(self).spec_cipher() == old(self).spec_cipher(),
            match r {
                Ok(()) => final(self).spec_stored_settings() matches Some(p) && (match old(self).spec_cipher() {
                    Some(k) => decrypt_spec(k, p) == Some(payload@),
                    None => p == payload@,
                }),
                Err(e) => e == StoreError::EncryptError && old(self).spec_cipher() is Some
                    && *final(self) == *old(self),
            },
    {
        let sealed = self.encrypt_data(payload)?;
        self.settings_payload = Some(sealed);
        Ok(())
    }

    /// Read the settings payload back, opened under the held cipher, and
    /// never as garbage.  `Ok(None)` means either that no settings were
    /// ever stored or that the stored payload does not open under the held
    /// cipher; both ways the caller falls back to fresh default settings
    /// instead of failing.
    pub fn load_user_settings(&self) -> (r: Result<Option<String>, StoreError>)
        requires
            self.wf(),
        ensures
            r is Ok,
            match r {
                Ok(opt) => match opt {
                    Some(p) => self.spec_stored_settings() matches Some(stored) && (match self
                        .spec_cipher() {
                        Some(k) => decrypt_spec(k, stored) == Some(p@),
                        None => p@ == stored,
                    }),
                    None => self.spec_stored_settings() is None || (self.spec_cipher()
                        matches Some(k) && self.spec_stored_settings() matches Some(stored)
                        && decrypt_spec(k, stored) is None),
                },
                Err(_) => false,
            },
    {
        match &self.settings_payload {
            Some(stored) => {
                match self.decrypt_data(stored.as_str()) {
                    Ok(plain) => Ok(Some(plain)),
                    Err(_) => Ok(None),
                }
            },
            None => Ok(None),
        }
    }
}

/// Some stored category has this id.
pub open spec fn cat_exists(cats: Seq<Category>, id: Seq<char>) -> bool {
    exists|i: int| 0 <= i < cats.len() && (#[trigger] cats[i]).id@ == id
}

/// The index of the category with this id (unique when ids are unique).
pub open spec fn cat_index_of(cats: Seq<Category>, id: Seq<char>) -> int {
    choose|i: int| 0 <= i < cats.len() && (#[trigger] cats[i]).id@ == id
}

/// Some stored flow has this id.
pub open spec fn flow_exists(flows: Seq<Flow>, id: Seq<char>) -> bool {
    exists|i: int| 0 <= i < flows.len() && (#[trigger] flows[i]).id@ == id
}

/// The index of the flow with this id (unique when ids are unique).
pub open spec fn flow_index_of(flows: Seq<Flow>, id: Seq<char>) -> int {
    choose|i: int| 0 <= i < flows.len() && (#[trigger] flows[i]).id@ == id
}

/// The index of the category with this id, if any.
fn find_category_index(cats: &Vec<Category>, id: &str) -> (r: Option<usize>)
    ensures
        match r {
            Some(i) => i < cats@.len() && cats@[i as int].id@ == id@,
            None => !cat_exists(cats@, id@),
        },
{
    let n = cats.len();
    let mut i: usize = 0;
    while i < n
        invariant
            n == cats@.len(),
            i <= n,
            forall|k: int| 0 <= k < i ==> (#[trigger] cats@[k]).id@ != id@,
        decreases n - i,
    {
        if str_eq(cats[i].id.as_str(), id) {
            return Some(i);
        }
        i = i + 1;
    }
    None
}

/// The index of the flow with this id, if any.
fn find_flow_index(flows: &Vec<Flow>, id: &str) -> (r: Option<usize>)
    ensures
        match r {
            Some(i) => i < flows@.len() && flows@[i as int].id@ == id@,
            None => !flow_exists(flows@, id@),
        },
{
    let n = flows.len();
    let mut i: usize = 0;
    while i < n
        invariant
            n == flows@.len(),
            i <= n,
            forall|k: int| 0 <= k < i ==> (#[trigger] flows@[k]).id@ != id@,
        decreases n - i,
    {
        if str_eq(flows[i].id.as_str(), id) {
            return Some(i);
        }
        i = i + 1;
    }
    None
}

impl Database {
    /// Update the stored category with the same id, migrating the
    /// category's flows inside the same step when the field schema changed.
    /// Update-oriented: an id with no stored row is `NotFound`, and a failed
    /// save leaves the store untouched.
    pub fn save_category(&mut self, category: &Category) -> (r: Result<(), StoreError>)
        requires
            old(self).wf(),
            wf_category(*category),
        ensures
            final(self).wf(),
            final(self).spec_stored_settings() == old(self).spec_stored_settings(),
            final(self).spec_ledger() == old(self).spec_ledger(),
            final(self).spec_config() == old(self).spec_config(),
            final(self).spec_cipher() == old(self).spec_cipher(),
            match r {
                Ok(()) => {
                    &&& cat_exists(old(self).spec_categories(), category.id@)
                    &&& final(self).spec_categories().len() == old(self).spec_categories().len()
                    &&& {
                        let i = cat_index_of(old(self).spec_categories(), category.id@);
                        let old_cat = old(self).spec_categories()[i];
                        &&& cat_same(final(self).spec_categories()[i], *category)
                        &&& (forall|j: int|
                            0 <= j < final(self).spec_categories().len() && j != i
                                ==> final(self).spec_categories()[j] == old(self).spec_categories()[j])
                        &&& final(self).spec_flows().len() == old(self).spec_flows().len()
                        &&& (forall|k: int|
                            0 <= k < old(self).spec_flows().len() ==> if (old(self).spec_flows()[k].category_id@ == category.id@ && schema_changed(
                                old_cat.fields@,
                                category.fields@,
                            )) {
                                flow_migrated(
                                    *category,
                                    old(self).spec_flows()[k],
                                    #[trigger] final(self).spec_flows()[k],
                                )
                            } else {
                                flow_same(final(self).spec_flows()[k], old(self).spec_flows()[k])
                            })
                    }
                },
                Err(e) => e == StoreError::NotFound && !cat_exists(
                    old(self).spec_categories(),
                    category.id@,
                ) && *final(self) == *old(self),
            },
    {
        let idx = match find_category_index(&self.categories, category.id.as_str()) {
            Some(i) => i,
            None => {
                return Err(StoreError::NotFound);
            },
        };
        proof {
            assert(forall|j: int|
                0 <= j < self.categories@.len() && (#[trigger] self.categories@[j]).id@
                    == category.id@ ==> j == idx);
            assert(cat_index_of(self.categories@, category.id@) == idx as int);
        }
        let changed = has_schema_changes(&self.categories[idx], category);
        if changed {
            let migrated = migrate_flows_to_new_category(
                &self.flows,
                &self.categories[idx],
                category,
            );
            self.flows = migrated;
        }
        let replacement = clone_category(category);
        self.categories.set(idx, replacement);
        proof {
            let oc = old(self).spec_categories();
            let nc = self.categories@;
            assert(cat_ids_unique(nc)) by {
                assert forall|a: int, b: int| 0 <= a < b < nc.len() implies (
                #[trigger] nc[a]).id@ != (#[trigger] nc[b]).id@ by {
                    assert(nc[a].id@ == oc[a].id@);
                    assert(nc[b].id@ == oc[b].id@);
                }
            }
            assert forall|i: int| 0 <= i < nc.len() implies wf_category(#[trigger] nc[i]) by {
                if i == idx {
                    assert forall|a: int, b: int|
                        0 <= a < b < nc[i].fields@.len() implies (
                    #[trigger] nc[i].fields@[a]).name@ != (#[trigger] nc[i].fields@[b]).name@ by {
                        assert(nc[i].fields@[a].name@ == category.fields@[a].name@);
                        assert(nc[i].fields@[b].name@ == category.fields@[b].name@);
                    }
                }
            }
            let of = old(self).spec_flows();
            let nf = self.flows@;
            assert(flow_ids_unique(nf)) by {
                assert forall|a: int, b: int| 0 <= a < b < nf.len() implies (
                #[trigger] nf[a]).id@ != (#[trigger] nf[b]).id@ by {
                    assert(nf[a].id@ == of[a].id@);
                    assert(nf[b].id@ == of[b].id@);
                }
            }
            assert forall|k: int| 0 <= k < nf.len() implies wf_flow(#[trigger] nf[k]) by {
                if !(of[k].category_id@ == category.id@ && schema_changed(
                    oc[idx as int].fields@,
                    category.fields@,
                )) {
                    assert(flow_same(nf[k], of[k]));
                    assert forall|a: int, b: int|
                        0 <= a < b < nf[k].custom_fields@.len() implies (
                    #[trigger] nf[k].custom_fields@[a]).name@ != (
                    #[trigger] nf[k].custom_fields@[b]).name@ by {
                        assert(nf[k].custom_fields@[a].name@ == of[k].custom_fields@[a].name@);
                        assert(nf[k].custom_fields@[b].name@ == of[k].custom_fields@[b].name@);
                    }
                }
            }
        }
        Ok(())
    }

    /// Upsert a flow by id: replace the stored row with this id, or append
    /// the flow when no row has it.
    pub fn save_flow(&mut self, flow: &Flow) -> (r: Result<(), StoreError>)
        requires
            old(self).wf(),
            wf_flow(*flow),
        ensures
            final(self).wf(),
            r is Ok,
            final(self).spec_categories() == old(self).spec_categories(),
            final(self).spec_stored_settings() == old(self).spec_stored_settings(),
            final(self).spec_ledger() == old(self).spec_ledger(),
            final(self).spec_config() == old(self).spec_config(),
            final(self).spec_cipher() == old(self).spec_cipher(),
            flow_exists(old(self).spec_flows(), flow.id@) ==> {
                let i = flow_index_of(old(self).spec_flows(), flow.id@);
                &&& final(self).spec_flows().len() == old(self).spec_flows().len()
                &&& flow_same(final(self).spec_flows()[i], *flow)
                &&& (forall|j: int|
                    0 <= j < final(self).spec_flows().len() && j != i ==> final(self).spec_flows()[j] == old(self).spec_flows()[j])
            },
            !flow_exists(old(self).spec_flows(), flow.id@) ==> {
                &&& final(self).spec_flows().len() == old(self).spec_flows().len() + 1
                &&& final(self).spec_flows().take(old(self).spec_flows().len() as int) == old(self).spec_flows()
                &&& flow_same(final(self).spec_flows().last(), *flow)
            },
    {
        let copy = clone_flow(flow);
        match find_flow_index(&self.flows, flow.id.as_str()) {
            Some(i) => {
                proof {
                    assert(forall|j: int|
                        0 <= j < self.flows@.len() && (#[trigger] self.flows@[j]).id@ == flow.id@
                            ==> j == i);
                    assert(flow_index_of(self.flows@, flow.id@) == i as int);
                }
                self.flows.set(i, copy);
                proof {
                    lemma_replaced_flow_wf(old(self).spec_flows(), self.flows@, i as int, *flow);
                }
            },
            None => {
                self.flows.push(copy);
                proof {
                    let of = old(self).spec_flows();
                    let nf = self.flows@;
                    assert(nf.take(of.len() as int) =~= of);
                    assert(flow_ids_unique(nf)) by {
                        assert forall|a: int, b: int| 0 <= a < b < nf.len() implies (
                        #[trigger] nf[a]).id@ != (#[trigger] nf[b]).id@ by {
                            if b == nf.len() - 1 {
                                assert(nf[b].id@ == flow.id@);
                                assert(of[a].id@ != flow.id@);
                            }
                        }
                    }
                    assert forall|k: int| 0 <= k < nf.len() implies wf_flow(#[trigger] nf[k]) by {
                        if k == nf.len() - 1 {
                            lemma_flow_same_wf(nf[k], *flow);
                        }
                    }
                }
            },
        }
        Ok(())
    }

    /// Every stored category, as an exact copy.
    pub fn load_categories(&self) -> (r: Vec<Category>)
        ensures
            r@.len() == self.spec_categories().len(),
            forall|i: int| 0 <= i < r@.len() ==> cat_same(
                #[trigger] r@[i],
                self.spec_categories()[i],
            ),
    {
        let n = self.categories.len();
        let mut out: Vec<Category> = Vec::new();
        let mut i: usize = 0;
        while i < n
            invariant
                n == self.categories@.len(),
                i <= n,
                out@.len() == i,
                forall|k: int| 0 <= k < i ==> cat_same(#[trigger] out@[k], self.categories@[k]),
            decreases n - i,
        {
            out.push(clone_category(&self.categories[i]));
            i = i + 1;
        }
        out
    }

    /// Every stored flow, as an exact copy.
    pub fn load_flows(&self) -> (r: Vec<Flow>)
        ensures
            r@.len() == self.spec_flows().len(),
            forall|i: int| 0 <= i < r@.len() ==> flow_same(#[trigger] r@[i], self.spec_flows()[i]),
    {
        let n = self.flows.len();
        let mut out: Vec<Flow> = Vec::new();
        let mut i: usize = 0;
        while i < n
            invariant
                n == self.flows@.len(),
                i <= n,
                out@.len() == i,
                forall|k: int| 0 <= k < i ==> flow_same(#[trigger] out@[k], self.flows@[k]),
            decreases n - i,
        {
            out.push(clone_flow(&self.flows[i]));
            i = i + 1;
        }
        out
    }

    /// The migration ledger, as exact copies of its records.
    pub fn load_migration_ledger(&self) -> (r: Vec<MigrationRecord>)
        ensures
            r@.len() == self.spec_ledger().len(),
            forall|i: int| 0 <= i < r@.len() ==> rec_same(#[trigger] r@[i], self.spec_ledger()[i]),
    {
        copy_ledger(&self.ledger)
    }

    /// Delete the category row with this id; flows are not cascaded here,
    /// the caller deletes them separately.
    pub fn delete_category(&mut self, category_id: &str) -> (r: Result<(), StoreError>)
        requires
            old(self).wf(),
        ensures
            final(self).wf(),
            r is Ok,
            final(self).spec_flows() == old(self).spec_flows(),
            final(self).spec_stored_settings() == old(self).spec_stored_settings(),
            final(self).spec_ledger() == old(self).spec_ledger(),
            final(self).spec_config() == old(self).spec_config(),
            final(self).spec_cipher() == old(self).spec_cipher(),
            !cat_exists(old(self).spec_categories(), category_id@) ==> final(self).spec_categories() == old(self).spec_categories(),
            cat_exists(old(self).spec_categories(), category_id@) ==> final(self).spec_categories() == old(self).spec_categories().remove(
                cat_index_of(old(self).spec_categories(), category_id@),
            ),
            !cat_exists(final(self).spec_categories(), category_id@),
    {
        match find_category_index(&self.categories, category_id) {
            Some(i) => {
                proof {
                    assert(forall|j: int|
                        0 <= j < self.categories@.len() && (#[trigger] self.categories@[j]).id@
                            == category_id@ ==> j == i);
                    assert(cat_index_of(self.categories@, category_id@) == i as int);
                }
                let ghost before = self.categories@;
                self.categories.remove(i);
                proof {
                    let after = self.categories@;
                    assert forall|a: int, b: int| 0 <= a < b < after.len() implies (
                    #[trigger] after[a]).id@ != (#[trigger] after[b]).id@ by {
                        if b < i {
                        } else if a < i {
                            assert(after[a] == before[a] && after[b] == before[b + 1]);
                        } else {
                            assert(after[a] == before[a + 1] && after[b] == before[b + 1]);
                        }
                    }
                    assert forall|k: int| 0 <= k < after.len() implies wf_category(
                        #[trigger] after[k],
                    ) by {
                        if k < i {
                            assert(after[k] == before[k]);
                        } else {
                            assert(after[k] == before[k + 1]);
                        }
                    }
                    assert forall|k: int| 0 <= k < after.len() implies (#[trigger] after[k]).id@
                        != category_id@ by {
                        if k < i {
                            assert(after[k] == before[k]);
                        } else {
                            assert(after[k] == before[k + 1]);
                        }
                    }
                }
                Ok(())
            },
            None => Ok(()),
        }
    }

    /// Delete every flow filed under this category.
    pub fn delete_flows_by_category(&mut self, category_id: &str) -> (r: Result<(), StoreError>)
        requires
            old(self).wf(),
        ensures
            final(self).wf(),
            r is Ok,
            final(self).spec_categories() == old(self).spec_categories(),
            final(self).spec_stored_settings() == old(self).spec_stored_settings(),
            final(self).spec_ledger() == old(self).spec_ledger(),
            final(self).spec_config() == old(self).spec_config(),
            final(self).spec_cipher() == old(self).spec_cipher(),
            final(self).spec_flows() == old(self).spec_flows().filter(
                |f: Flow| f.category_id@ != category_id@,
            ),
    {
        let mut drained: Vec<Flow> = Vec::new();
        core::mem::swap(&mut self.flows, &mut drained);
        let ghost all = drained@;
        proof {
            assert(Seq::<Flow>::empty().filter(|f: Flow| f.category_id@ != category_id@)
                =~= Seq::<Flow>::empty());
            assert(all.take(0) =~= Seq::<Flow>::empty());
        }
        let total = drained.len();
        let mut done: usize = 0;
        while drained.len() > 0
            invariant
                done <= all.len(),
                all.len() == total as int,
                done + drained@.len() == all.len(),
                all.skip(done as int) =~= drained@,
                self.flows@ == all.take(done as int).filter(
                    |f: Flow| f.category_id@ != category_id@,
                ),
                flow_ids_unique(all),
                forall|k: int| 0 <= k < all.len() ==> wf_flow(#[trigger] all[k]),
                self.categories == old(self).categories,
                self.settings_payload == old(self).settings_payload,
                self.ledger == old(self).ledger,
                self.encryption == old(self).encryption,
                self.encryption_config == old(self).encryption_config,
            decreases drained@.len(),
        {
            let f = drained.remove(0);
            let ghost prefix = all.take(done as int);
            let ghost next_prefix = all.take(done as int + 1);
            proof {
                assert(f == all[done as int]);
                assert(drained@ =~= all.skip(done as int + 1));
                assert(next_prefix.drop_last() =~= prefix);
                assert(next_prefix.last() == f);
                reveal_with_fuel(Seq::filter, 2);
                assert(next_prefix.filter(|f: Flow| f.category_id@ != category_id@)
                    == prefix.filter(|f: Flow| f.category_id@ != category_id@) + (if f.category_id@
                    != category_id@ {
                    seq![f]
                } else {
                    Seq::<Flow>::empty()
                }));
            }
            if !str_eq(f.category_id.as_str(), category_id) {
                self.flows.push(f);
                proof {
                    assert(self.flows@ =~= next_prefix.filter(
                        |f: Flow| f.category_id@ != category_id@,
                    ));
                }
            } else {
                proof {
                    assert(self.flows@ =~= next_prefix.filter(
                        |f: Flow| f.category_id@ != category_id@,
                    ));
                }
            }
            done = done + 1;
        }
        proof {
            assert(all.take(all.len() as int) =~= all);
            lemma_filter_keeps_wf(all, |f: Flow| f.category_id@ != category_id@);
        }
        Ok(())
    }

    /// Delete the flow row with this id.
    pub fn delete_flow(&mut self, flow_id: &str) -> (r: Result<(), StoreError>)
        requires
            old(self).wf(),
        ensures
            final(self).wf(),
            r is Ok,
            final(self).spec_categories() == old(self).spec_categories(),
            final(self).spec_stored_settings() == old(self).spec_stored_settings(),
            final(self).spec_ledger() == old(self).spec_ledger(),
            final(self).spec_config() == old(self).spec_config(),
            final(self).spec_cipher() == old(self).spec_cipher(),
            !flow_exists(old(self).spec_flows(), flow_id@) ==> final(self).spec_flows() == old(self).spec_flows(),
            flow_exists(old(self).spec_flows(), flow_id@) ==> final(self).spec_flows() == old(self).spec_flows().remove(flow_index_of(old(self).spec_flows(), flow_id@)),
            !flow_exists(final(self).spec_flows(), flow_id@),
    {
        match find_flow_index(&self.flows, flow_id) {
            Some(i) => {
                proof {
                    assert(forall|j: int|
                        0 <= j < self.flows@.len() && (#[trigger] self.flows@[j]).id@ == flow_id@
                            ==> j == i);
                    assert(flow_index_of(self.flows@, flow_id@) == i as int);
                }
                let ghost before = self.flows@;
                self.flows.remove(i);
                proof {
                    let after = self.flows@;
                    assert forall|a: int, b: int| 0 <= a < b < after.len() implies (
                    #[trigger] after[a]).id@ != (#[trigger] after[b]).id@ by {
                        if b < i {
                        } else if a < i {
                            assert(after[a] == before[a] && after[b] == before[b + 1]);
                        } else {
                            assert(after[a] == before[a + 1] && after[b] == before[b + 1]);
                        }
                    }
                    assert forall|k: int| 0 <= k < after.len() implies wf_flow(
                        #[trigger] after[k],
                    ) by {
                        if k < i {
                            assert(after[k] == before[k]);
                        } else {
                            assert(after[k] == before[k + 1]);
                        }
                    }
                    assert forall|k: int| 0 <= k < after.len() implies (#[trigger] after[k]).id@
                        != flow_id@ by {
                        if k < i {
                            assert(after[k] == before[k]);
                        } else {
                            assert(after[k] == before[k + 1]);
                        }
                    }
                }
                Ok(())
            },
            None => Ok(()),
        }
    }
}

/// Replacing one flow by a same-id, well-formed flow keeps the store's
/// flow invariants.
proof fn lemma_replaced_flow_wf(before: Seq<Flow>, after: Seq<Flow>, i: int, f: Flow)
    requires
        flow_ids_unique(before),
        forall|k: int| 0 <= k < before.len() ==> wf_flow(#[trigger] before[k]),
        wf_flow(f),
        0 <= i < before.len(),
        after == before.update(i, after[i]),
        after.len() == before.len(),
        flow_same(after[i], f),
        f.id@ == before[i].id@,
    ensures
        flow_ids_unique(after),
        forall|k: int| 0 <= k < after.len() ==> wf_flow(#[trigger] after[k]),
{
    assert forall|a: int, b: int| 0 <= a < b < after.len() implies (#[trigger] after[a]).id@ != (
    #[trigger] after[b]).id@ by {
        assert(a == i || after[a] == before[a]);
        assert(b == i || after[b] == before[b]);
        if a == i {
            assert(after[a].id@ == before[i].id@);
        }
        if b == i {
            assert(after[b].id@ == before[i].id@);
        }
    }
    assert forall|k: int| 0 <= k < after.len() implies wf_flow(#[trigger] after[k]) by {
        if k == i {
            lemma_flow_same_wf(after[k], f);
        } else {
            assert(after[k] == before[k]);
        }
    }
}

/// A flow that mirrors a well-formed flow is well formed.
proof fn lemma_flow_same_wf(a: Flow, b: Flow)
    requires
        flow_same(a, b),
        wf_flow(b),
    ensures
        wf_flow(a),
{
    assert forall|x: int, y: int| 0 <= x < y < a.custom_fields@.len() implies (
    #[trigger] a.custom_fields@[x]).name@ != (#[trigger] a.custom_fields@[y]).name@ by {
        assert(a.custom_fields@[x].name@ == b.custom_fields@[x].name@);
        assert(a.custom_fields@[y].name@ == b.custom_fields@[y].name@);
    }
}

/// Filtering keeps id uniqueness and row well-formedness, and every kept
/// row is one of the original rows.
proof fn lemma_filter_keeps_wf(flows: Seq<Flow>, pred: spec_fn(Flow) -> bool)
    requires
        flow_ids_unique(flows),
        forall|k: int| 0 <= k < flows.len() ==> wf_flow(#[trigger] flows[k]),
    ensures
        flow_ids_unique(flows.filter(pred)),
        forall|k: int| 0 <= k < flows.filter(pred).len() ==> wf_flow(
            #[trigger] flows.filter(pred)[k],
        ),
        forall|k: int| 0 <= k < flows.filter(pred).len() ==> exists|i: int|
            0 <= i < flows.len() && flows[i] == #[trigger] flows.filter(pred)[k],
    decreases flows.len(),
{
    reveal_with_fuel(Seq::filter, 2);
    if flows.len() > 0 {
        let rest = flows.drop_last();
        assert(forall|k: int| 0 <= k < rest.len() ==> #[trigger] rest[k] == flows[k]);
        lemma_filter_keeps_wf(rest, pred);
        let fr = rest.filter(pred);
        let whole = flows.filter(pred);
        if pred(flows.last()) {
            assert(whole == fr.push(flows.last()));
            assert forall|k: int| 0 <= k < whole.len() implies exists|i: int|
                0 <= i < flows.len() && flows[i] == #[trigger] whole[k] by {
                if k < fr.len() {
                    assert(whole[k] == fr[k]);
                    let i = choose|i: int| 0 <= i < rest.len() && rest[i] == fr[k];
                    assert(flows[i] == whole[k]);
                } else {
                    assert(whole[k] == flows[flows.len() - 1]);
                }
            }
            assert forall|a: int, b: int| 0 <= a < b < whole.len() implies (
            #[trigger] whole[a]).id@ != (#[trigger] whole[b]).id@ by {
                if b < fr.len() {
                    assert(whole[a] == fr[a] && whole[b] == fr[b]);
                } else {
                    assert(whole[a] == fr[a]);
                    assert(whole[b] == flows.last());
                    let i = choose|i: int| 0 <= i < rest.len() && rest[i] == fr[a];
                    assert(flows[i].id@ != flows[flows.len() - 1].id@);
                }
            }
            assert forall|k: int| 0 <= k < whole.len() implies wf_flow(#[trigger] whole[k]) by {
                if k < fr.len() {
                    assert(whole[k] == fr[k]);
                } else {
                    assert(whole[k] == flows.last());
                }
            }
        } else {
            assert(whole == fr);
        }
    }
}

/// Category and flow rows are acceptable as store content: ids unique on
/// both sides, every row well formed.
pub open spec fn rows_ok(categories: Seq<Category>, flows: Seq<Flow>) -> bool {
    cat_ids_unique(categories) && flow_ids_unique(flows) && (forall|i: int|
        0 <= i < categories.len() ==> wf_category(#[trigger] categories[i])) && (forall|i: int|
        0 <= i < flows.len() ==> wf_flow(#[trigger] flows[i]))
}

/// Category and flow rows are well formed and their ids are unique.
fn rows_well_formed(categories: &Vec<Category>, flows: &Vec<Flow>) -> (r: bool)
    ensures
        r == rows_ok(categories@, flows@),
{
    let n = categories.len();
    let mut i: usize = 0;
    while i < n
        invariant
            n == categories@.len(),
            i <= n,
            forall|a: int, b: int| 0 <= a < b < i ==> (#[trigger] categories@[a]).id@
                != (#[trigger] categories@[b]).id@,
            forall|a: int| 0 <= a < i ==> wf_category(#[trigger] categories@[a]),
        decreases n - i,
    {
        if !field_names_ok(&categories[i]) {
            return false;
        }
        let mut j: usize = 0;
        while j < i
            invariant
                i < n,
                n == categories@.len(),
                j <= i,
                forall|b: int| 0 <= b < j ==> (#[trigger] categories@[b]).id@
                    != categories@[i as int].id@,
            decreases i - j,
        {
            if str_eq(categories[j].id.as_str(), categories[i].id.as_str()) {
                return false;
            }
            j = j + 1;
        }
        i = i + 1;
    }
    let m = flows.len();
    let mut k: usize = 0;
    while k < m
        invariant
            m == flows@.len(),
            k <= m,
            cat_ids_unique(categories@),
            forall|a: int| 0 <= a < categories@.len() ==> wf_category(#[trigger] categories@[a]),
            forall|a: int, b: int| 0 <= a < b < k ==> (#[trigger] flows@[a]).id@
                != (#[trigger] flows@[b]).id@,
            forall|a: int| 0 <= a < k ==> wf_flow(#[trigger] flows@[a]),
        decreases m - k,
    {
        if !custom_field_names_ok(&flows[k]) {
            return false;
        }
        let mut j: usize = 0;
        while j < k
            invariant
                k < m,
                m == flows@.len(),
                j <= k,
                forall|b: int| 0 <= b < j ==> (#[trigger] flows@[b]).id@ != flows@[k as int].id@,
            decreases k - j,
        {
            if str_eq(flows[j].id.as_str(), flows[k].id.as_str()) {
                return false;
            }
            j = j + 1;
        }
        k = k + 1;
    }
    true
}

/// The category's field names are unique.
fn field_names_ok(c: &Category) -> (r: bool)
    ensures
        r == wf_category(*c),
{
    let n = c.fields.len();
    let mut i: usize = 0;
    while i < n
        invariant
            n == c.fields@.len(),
            i <= n,
            forall|a: int, b: int| 0 <= a < b < i ==> (#[trigger] c.fields@[a]).name@
                != (#[trigger] c.fields@[b]).name@,
        decreases n - i,
    {
        let mut j: usize = 0;
        while j < i
            invariant
                i < n,
                n == c.fields@.len(),
                j <= i,
                forall|b: int| 0 <= b < j ==> (#[trigger] c.fields@[b]).name@
                    != c.fields@[i as int].name@,
            decreases i - j,
        {
            if str_eq(c.fields[j].name.as_str(), c.fields[i].name.as_str()) {
                return false;
            }
            j = j + 1;
        }
        i = i + 1;
    }
    true
}

/// The flow's custom-field names are unique.
fn custom_field_names_ok(f: &Flow) -> (r: bool)
    ensures
        r == wf_flow(*f),
{
    let n = f.custom_fields.len();
    let mut i: usize = 0;
    while i < n
        invariant
            n == f.custom_fields@.len(),
            i <= n,
            forall|a: int, b: int| 0 <= a < b < i ==> (#[trigger] f.custom_fields@[a]).name@
                != (#[trigger] f.custom_fields@[b]).name@,
        decreases n - i,
    {
        let mut j: usize = 0;
        while j < i
            invariant
                i < n,
                n == f.custom_fields@.len(),
                j <= i,
                forall|b: int| 0 <= b < j ==> (#[trigger] f.custom_fields@[b]).name@
                    != f.custom_fields@[i as int].name@,
            decreases i - j,
        {
            if str_eq(f.custom_fields[j].name.as_str(), f.custom_fields[i].name.as_str()) {
                return false;
            }
            j = j + 1;
        }
        i = i + 1;
    }
    true
}

/// Normalizing categories keeps their well-formedness and id uniqueness.
proof fn lemma_normalized_rows_keep_wf(before: Seq<Category>, after: Seq<Category>)
    requires
        cat_ids_unique(before),
        forall|i: int| 0 <= i < before.len() ==> wf_category(#[trigger] before[i]),
        after.len() == before.len() || after == before,
        after.len() == before.len() ==> forall|i: int|
            0 <= i < after.len() ==> crate::migrations::category_normalized(
                #[trigger] after[i],
                before[i],
            ) || after[i] == before[i],
    ensures
        after.len() == before.len() ==> cat_ids_unique(after) && (forall|i: int|
            0 <= i < after.len() ==> wf_category(#[trigger] after[i])),
{
    if after.len() == before.len() {
        assert forall|a: int, b: int| 0 <= a < b < after.len() implies after[a].id@
            != after[b].id@ by {
            assert(after[a].id@ == before[a].id@);
            assert(after[b].id@ == before[b].id@);
        }
        assert forall|i: int| 0 <= i < after.len() implies wf_category(#[trigger] after[i]) by {
            assert forall|a: int, b: int|
                0 <= a < b < after[i].fields@.len() implies (#[trigger] after[i].fields@[a]).name@
                != (#[trigger] after[i].fields@[b]).name@ by {
                assert(after[i].fields@[a].name@ == before[i].fields@[a].name@);
                assert(after[i].fields@[b].name@ == before[i].fields@[b].name@);
            }
        }
    }
}

/// The configuration's recorded digest accepts this password.
pub open spec fn config_accepts(c: EncryptionConfig, p: Seq<char>) -> bool {
    &&& c.password_hash matches Some(h) && c.salt matches Some(sa) && h@
        == crate::encryption::password_digest(p, sa@)
}

/// An encrypted backup without credentials and without forced recovery.
pub open spec fn restore_password_gate(detected: bool, password: Option<&str>, force: bool) -> bool {
    detected && password is None && !force
}

/// A password was offered for an encrypted backup and the live
/// configuration rejects it.
pub open spec fn restore_password_mismatch(
    c: EncryptionConfig,
    detected: bool,
    password: Option<&str>,
) -> bool {
    detected && (password matches Some(p) && !config_accepts(c, p@))
}

/// The text of an optional stored payload.
pub open spec fn opt_text(p: Option<String>) -> Option<Seq<char>> {
    match p {
        Some(s) => Some(s@),
        None => None,
    }
}

/// The two ledger records carry the same data.
pub open spec fn rec_same(a: MigrationRecord, b: MigrationRecord) -> bool {
    a.name@ == b.name@ && a.version == b.version && a.applied_at == b.applied_at
}

/// The logical content of a backup file: the three data tables, and the
/// migration ledger when the backup is a page-level clone.
pub struct BackupImage {
    pub categories: Vec<Category>,
    pub flows: Vec<Flow>,
    pub settings_payload: Option<String>,
    pub ledger: Vec<MigrationRecord>,
}

/// Exact copies of category rows.
fn copy_categories(src: &Vec<Category>) -> (r: Vec<Category>)
    ensures
        r@.len() == src@.len(),
        forall|i: int| 0 <= i < r@.len() ==> cat_same(#[trigger] r@[i], src@[i]),
{
    let n = src.len();
    let mut out: Vec<Category> = Vec::new();
    let mut i: usize = 0;
    while i < n
        invariant
            n == src@.len(),
            i <= n,
            out@.len() == i,
            forall|k: int| 0 <= k < i ==> cat_same(#[trigger] out@[k], src@[k]),
        decreases n - i,
    {
        out.push(clone_category(&src[i]));
        i = i + 1;
    }
    out
}

/// Exact copies of flow rows.
fn copy_flows(src: &Vec<Flow>) -> (r: Vec<Flow>)
    ensures
        r@.len() == src@.len(),
        forall|i: int| 0 <= i < r@.len() ==> flow_same(#[trigger] r@[i], src@[i]),
{
    let n = src.len();
    let mut out: Vec<Flow> = Vec::new();
    let mut i: usize = 0;
    while i < n
        invariant
            n == src@.len(),
            i <= n,
            out@.len() == i,
            forall|k: int| 0 <= k < i ==> flow_same(#[trigger] out@[k], src@[k]),
        decreases n - i,
    {
        out.push(clone_flow(&src[i]));
        i = i + 1;
    }
    out
}

/// Exact copies of ledger records.
fn copy_ledger(src: &Vec<MigrationRecord>) -> (r: Vec<MigrationRecord>)
    ensures
        r@.len() == src@.len(),
        forall|i: int| 0 <= i < r@.len() ==> rec_same(#[trigger] r@[i], src@[i]),
{
    let n = src.len();
    let mut out: Vec<MigrationRecord> = Vec::new();
    let mut i: usize = 0;
    while i < n
        invariant
            n == src@.len(),
            i <= n,
            out@.len() == i,
            forall|k: int| 0 <= k < i ==> rec_same(#[trigger] out@[k], src@[k]),
        decreases n - i,
    {
        let rec = &src[i];
        out.push(
            MigrationRecord {
                name: rec.name.clone(),
                version: rec.version,
                applied_at: rec.applied_at,
            },
        );
        i = i + 1;
    }
    out
}

/// Copies of well-formed unique rows are well-formed unique rows.
proof fn lemma_copied_rows_wf(
    src_c: Seq<Category>,
    dst_c: Seq<Category>,
    src_f: Seq<Flow>,
    dst_f: Seq<Flow>,
)
    requires
        cat_ids_unique(src_c),
        forall|i: int| 0 <= i < src_c.len() ==> wf_category(#[trigger] src_c[i]),
        flow_ids_unique(src_f),
        forall|i: int| 0 <= i < src_f.len() ==> wf_flow(#[trigger] src_f[i]),
        dst_c.len() == src_c.len(),
        forall|i: int| 0 <= i < dst_c.len() ==> cat_same(#[trigger] dst_c[i], src_c[i]),
        dst_f.len() == src_f.len(),
        forall|i: int| 0 <= i < dst_f.len() ==> flow_same(#[trigger] dst_f[i], src_f[i]),
    ensures
        cat_ids_unique(dst_c),
        forall|i: int| 0 <= i < dst_c.len() ==> wf_category(#[trigger] dst_c[i]),
        flow_ids_unique(dst_f),
        forall|i: int| 0 <= i < dst_f.len() ==> wf_flow(#[trigger] dst_f[i]),
{
    assert forall|a: int, b: int| 0 <= a < b < dst_c.len() implies (#[trigger] dst_c[a]).id@ != (
    #[trigger] dst_c[b]).id@ by {
        assert(dst_c[a].id@ == src_c[a].id@);
        assert(dst_c[b].id@ == src_c[b].id@);
    }
    assert forall|i: int| 0 <= i < dst_c.len() implies wf_category(#[trigger] dst_c[i]) by {
        assert forall|x: int, y: int| 0 <= x < y < dst_c[i].fields@.len() implies (
        #[trigger] dst_c[i].fields@[x]).name@ != (#[trigger] dst_c[i].fields@[y]).name@ by {
            assert(dst_c[i].fields@[x].name@ == src_c[i].fields@[x].name@);
            assert(dst_c[i].fields@[y].name@ == src_c[i].fields@[y].name@);
        }
    }
    assert forall|a: int, b: int| 0 <= a < b < dst_f.len() implies (#[trigger] dst_f[a]).id@ != (
    #[trigger] dst_f[b]).id@ by {
        assert(dst_f[a].id@ == src_f[a].id@);
        assert(dst_f[b].id@ == src_f[b].id@);
    }
    assert forall|i: int| 0 <= i < dst_f.len() implies wf_flow(#[trigger] dst_f[i]) by {
        lemma_flow_same_wf(dst_f[i], src_f[i]);
    }
}

impl Database {
    /// Produce the content of a backup file.  An encrypted backup is a
    /// page-level clone — every row and the ledger byte-for-byte, the
    /// settings payload still sealed — and is refused while encryption is
    /// not active.  A portable backup carries the settings payload opened,
    /// and no ledger.
    pub fn backup_to_file(&self, encrypted_backup: bool) -> (r: Result<BackupImage, StoreError>)
        requires
            self.wf(),
        ensures
            encrypted_backup && self.spec_config().spec_ready() ==> r is Ok,
            !encrypted_backup && (match (self.spec_cipher(), self.spec_stored_settings()) {
                (Some(k), Some(st)) => decrypt_spec(k, st) is Some,
                _ => true,
            }) ==> r is Ok,
            match r {
                Ok(img) => {
                    &&& (encrypted_backup ==> self.spec_config().spec_ready())
                    &&& img.categories@.len() == self.spec_categories().len()
                    &&& (forall|i: int|
                        0 <= i < img.categories@.len() ==> cat_same(
                            #[trigger] img.categories@[i],
                            self.spec_categories()[i],
                        ))
                    &&& img.flows@.len() == self.spec_flows().len()
                    &&& (forall|i: int|
                        0 <= i < img.flows@.len() ==> flow_same(
                            #[trigger] img.flows@[i],
                            self.spec_flows()[i],
                        ))
                    &&& (encrypted_backup ==> opt_text(img.settings_payload)
                        == self.spec_stored_settings() && img.ledger@.len()
                        == self.spec_ledger().len() && (forall|i: int|
                        0 <= i < img.ledger@.len() ==> rec_same(
                            #[trigger] img.ledger@[i],
                            self.spec_ledger()[i],
                        )))
                    &&& (!encrypted_backup ==> img.ledger@.len() == 0 && (match self
                        .spec_stored_settings() {
                        Some(st) => opt_text(img.settings_payload) == (match self.spec_cipher() {
                            Some(k) => decrypt_spec(k, st),
                            None => Some(st),
                        }),
                        None => img.settings_payload is None,
                    }))
                },
                Err(e) => (encrypted_backup && !self.spec_config().spec_ready() && e
                    == StoreError::PreconditionFailed) || (!encrypted_backup && e
                    == StoreError::DecryptError && self.spec_cipher() is Some && (match self
                    .spec_stored_settings() {
                    Some(st) => decrypt_spec(self.spec_cipher().unwrap(), st) is None,
                    None => false,
                })),
            },
    {
        if encrypted_backup && !self.is_encrypted() {
            return Err(StoreError::PreconditionFailed);
        }
        let categories = copy_categories(&self.categories);
        let flows = copy_flows(&self.flows);
        if encrypted_backup {
            Ok(
                BackupImage {
                    categories,
                    flows,
                    settings_payload: crate::models::clone_opt_string(&self.settings_payload),
                    ledger: copy_ledger(&self.ledger),
                },
            )
        } else {
            let settings_payload = match &self.settings_payload {
                Some(stored) => {
                    let plain = self.decrypt_data(stored.as_str())?;
                    Some(plain)
                },
                None => None,
            };
            Ok(BackupImage { categories, flows, settings_payload, ledger: Vec::new() })
        }
    }

    /// Restore the store from a backup's content, atomically: every failure
    /// leaves the live store exactly as it was.
    ///
    /// A backup detected as encrypted needs either the store's password —
    /// verified against the live configuration, then restored as a
    /// page-level clone, ledger included — or an explicit forced recovery.
    /// Any other source is restored row by row: rows are collected first,
    /// the settings payload is re-sealed into the live store's current
    /// encryption mode, and only then is the content replaced, so a failed
    /// read never leaves the store partially cleared.  The live ledger is
    /// kept on this path.
    pub fn restore_from_file(
        &mut self,
        backup: &BackupImage,
        detected_encrypted: bool,
        password: Option<&str>,
        force_unencrypted_restore: bool,
    ) -> (r: Result<(), StoreError>)
        requires
            old(self).wf(),
        ensures
            final(self).wf(),
            final(self).spec_config() == old(self).spec_config(),
            final(self).spec_cipher() == old(self).spec_cipher(),
            restore_password_gate(detected_encrypted, password, force_unencrypted_restore) ==> r
                == Err::<(), StoreError>(StoreError::PasswordRequired),
            restore_password_mismatch(old(self).spec_config(), detected_encrypted, password)
                ==> r == Err::<(), StoreError>(StoreError::DecryptError),
            !restore_password_gate(detected_encrypted, password, force_unencrypted_restore)
                && !restore_password_mismatch(old(self).spec_config(), detected_encrypted, password)
                && !rows_ok(backup.categories@, backup.flows@) ==> r == Err::<(), StoreError>(
                StoreError::SerializationError,
            ),
            !restore_password_gate(detected_encrypted, password, force_unencrypted_restore)
                && !restore_password_mismatch(old(self).spec_config(), detected_encrypted, password)
                && rows_ok(backup.categories@, backup.flows@) && ((detected_encrypted
                && password is Some) || backup.settings_payload is None || old(
                self,
            ).spec_cipher() is None) ==> r is Ok,
            match r {
                Err(e) => *final(self) == *old(self) && ((e == StoreError::PasswordRequired
                    && restore_password_gate(
                    detected_encrypted,
                    password,
                    force_unencrypted_restore,
                )) || (e == StoreError::DecryptError && restore_password_mismatch(
                    old(self).spec_config(),
                    detected_encrypted,
                    password,
                )) || (e == StoreError::SerializationError && !rows_ok(
                    backup.categories@,
                    backup.flows@,
                )) || (e == StoreError::EncryptError && old(self).spec_cipher() is Some
                    && backup.settings_payload is Some && !(detected_encrypted
                    && password is Some))),
                Ok(()) => {
                    &&& final(self).spec_categories().len() == backup.categories@.len()
                    &&& (forall|i: int|
                        0 <= i < backup.categories@.len() ==> cat_same(
                            #[trigger] final(self).spec_categories()[i],
                            backup.categories@[i],
                        ))
                    &&& final(self).spec_flows().len() == backup.flows@.len()
                    &&& (forall|i: int|
                        0 <= i < backup.flows@.len() ==> flow_same(
                            #[trigger] final(self).spec_flows()[i],
                            backup.flows@[i],
                        ))
                    &&& (detected_encrypted && password is Some ==> final(self).spec_stored_settings() == opt_text(backup.settings_payload) && final(self).spec_ledger().len() == backup.ledger@.len() && (forall|i: int|
                        0 <= i < backup.ledger@.len() ==> rec_same(
                            #[trigger] final(self).spec_ledger()[i],
                            backup.ledger@[i],
                        )))
                    &&& (!(detected_encrypted && password is Some) ==> final(self).spec_ledger()
                        == old(self).spec_ledger() && (match backup.settings_payload {
                        Some(p) => final(self).spec_stored_settings() matches Some(q) && (
                        match old(self).spec_cipher() {
                            Some(k) => decrypt_spec(k, q) == Some(p@),
                            None => q == p@,
                        }),
                        None => final(self).spec_stored_settings() is None,
                    }))
                },
            },
    {
        if detected_encrypted && password.is_none() && !force_unencrypted_restore {
            return Err(StoreError::PasswordRequired);
        }
        if detected_encrypted && password.is_some() {
            let pwd = password.unwrap();
            if !self.encryption_config.verify_password(pwd) {
                return Err(StoreError::DecryptError);
            }
            if !rows_well_formed(&backup.categories, &backup.flows) {
                return Err(StoreError::SerializationError);
            }
            let new_cats = copy_categories(&backup.categories);
            let new_flows = copy_flows(&backup.flows);
            let new_ledger = copy_ledger(&backup.ledger);
            let new_settings = crate::models::clone_opt_string(&backup.settings_payload);
            proof {
                lemma_copied_rows_wf(backup.categories@, new_cats@, backup.flows@, new_flows@);
            }
            self.categories = new_cats;
            self.flows = new_flows;
            self.ledger = new_ledger;
            self.settings_payload = new_settings;
            Ok(())
        } else {
            if !rows_well_formed(&backup.categories, &backup.flows) {
                return Err(StoreError::SerializationError);
            }
            // Collect everything before touching the live store.
            let new_cats = copy_categories(&backup.categories);
            let new_flows = copy_flows(&backup.flows);
            let new_settings = match &backup.settings_payload {
                Some(p) => {
                    let sealed = self.encrypt_data(p.as_str())?;
                    Some(sealed)
                },
                None => None,
            };
            proof {
                lemma_copied_rows_wf(backup.categories@, new_cats@, backup.flows@, new_flows@);
            }
            self.categories = new_cats;
            self.flows = new_flows;
            self.settings_payload = new_settings;
            Ok(())
        }
    }
}

} // verus!

