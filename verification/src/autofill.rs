//! The saved identity that forms are filled from: contact, address and a payment card without its
//! security code.

use vstd::prelude::*;
use vstd::string::*;

use crate::json;
use crate::json::Json;
use crate::number;
use crate::text;

verus! {

/// One saved identity. Blank fields are left out both where it is shown and where a page is
/// filled.
pub struct AutofillProfile {
    pub full_name: String,
    pub email: String,
    pub phone: String,
    pub organization: String,
    pub address1: String,
    pub address2: String,
    pub city: String,
    pub region: String,
    pub postal_code: String,
    pub country: String,
    pub cc_name: String,
    pub cc_number: String,
    pub cc_exp_month: String,
    pub cc_exp_year: String,
    pub updated: i64,
}

/// The texts of an identity, in order.
pub open spec fn fields(p: AutofillProfile) -> Seq<Seq<char>> {
    seq![
        p.full_name@,
        p.email@,
        p.phone@,
        p.organization@,
        p.address1@,
        p.address2@,
        p.city@,
        p.region@,
        p.postal_code@,
        p.country@,
        p.cc_name@,
        p.cc_number@,
        p.cc_exp_month@,
        p.cc_exp_year@,
    ]
}

/// An identity without any text.
pub open spec fn is_empty_profile(p: AutofillProfile) -> bool {
    &&& p.full_name@.len() == 0
    &&& p.email@.len() == 0
    &&& p.phone@.len() == 0
    &&& p.organization@.len() == 0
    &&& p.address1@.len() == 0
    &&& p.address2@.len() == 0
    &&& p.city@.len() == 0
    &&& p.region@.len() == 0
    &&& p.postal_code@.len() == 0
    &&& p.country@.len() == 0
    &&& p.cc_name@.len() == 0
    &&& p.cc_number@.len() == 0
    &&& p.cc_exp_month@.len() == 0
    &&& p.cc_exp_year@.len() == 0
}

impl Default for AutofillProfile {
    fn default() -> (r: AutofillProfile)
        ensures
            is_empty_profile(r),
            r.updated == 0,
    {
        AutofillProfile {
            full_name: String::new(),
            email: String::new(),
            phone: String::new(),
            organization: String::new(),
            address1: String::new(),
            address2: String::new(),
            city: String::new(),
            region: String::new(),
            postal_code: String::new(),
            country: String::new(),
            cc_name: String::new(),
            cc_number: String::new(),
            cc_exp_month: String::new(),
            cc_exp_year: String::new(),
            updated: 0,
        }
    }
}

impl AutofillProfile {
    /// Is every field blank, so that there is nothing to fill in or to show?
    pub fn is_blank(&self) -> (r: bool)
        ensures
            r == is_empty_profile(*self),
            r == (forall|i: int|
                0 <= i < fields(*self).len() ==> (#[trigger] fields(*self)[i]).len() == 0),
    {
        proof {
            let f = fields(*self);
            assert(f[0] == self.full_name@ && f[1] == self.email@ && f[2] == self.phone@);
            assert(f[3] == self.organization@ && f[4] == self.address1@ && f[5] == self.address2@);
            assert(f[6] == self.city@ && f[7] == self.region@ && f[8] == self.postal_code@);
            assert(f[9] == self.country@ && f[10] == self.cc_name@ && f[11] == self.cc_number@);
            assert(f[12] == self.cc_exp_month@ && f[13] == self.cc_exp_year@);
        }
        self.full_name.as_str().is_empty() && self.email.as_str().is_empty()
            && self.phone.as_str().is_empty() && self.organization.as_str().is_empty()
            && self.address1.as_str().is_empty() && self.address2.as_str().is_empty()
            && self.city.as_str().is_empty() && self.region.as_str().is_empty()
            && self.postal_code.as_str().is_empty() && self.country.as_str().is_empty()
            && self.cc_name.as_str().is_empty() && self.cc_number.as_str().is_empty()
            && self.cc_exp_month.as_str().is_empty() && self.cc_exp_year.as_str().is_empty()
    }
}

// ---------------------------------------------------------------------------
// The identity as a text
// ---------------------------------------------------------------------------

/// A document that holds an identity: every field is there, as a text or a whole number.
pub open spec fn is_profile(doc: Json) -> bool {
    &&& json::member_string(doc, "full_name"@) is Some
    &&& json::member_string(doc, "email"@) is Some
    &&& json::member_string(doc, "phone"@) is Some
    &&& json::member_string(doc, "organization"@) is Some
    &&& json::member_string(doc, "address1"@) is Some
    &&& json::member_string(doc, "address2"@) is Some
    &&& json::member_string(doc, "city"@) is Some
    &&& json::member_string(doc, "region"@) is Some
    &&& json::member_string(doc, "postal_code"@) is Some
    &&& json::member_string(doc, "country"@) is Some
    &&& json::member_string(doc, "cc_name"@) is Some
    &&& json::member_string(doc, "cc_number"@) is Some
    &&& json::member_string(doc, "cc_exp_month"@) is Some
    &&& json::member_string(doc, "cc_exp_year"@) is Some
    &&& json::member_whole(doc, "updated"@) is Some
}

/// The identity that a document holds.
pub open spec fn read_profile(doc: Json) -> Option<AutofillProfile> {
    if is_profile(doc) {
        Some(
            AutofillProfile {
                full_name: json::member_string(doc, "full_name"@)->0,
                email: json::member_string(doc, "email"@)->0,
                phone: json::member_string(doc, "phone"@)->0,
                organization: json::member_string(doc, "organization"@)->0,
                address1: json::member_string(doc, "address1"@)->0,
                address2: json::member_string(doc, "address2"@)->0,
                city: json::member_string(doc, "city"@)->0,
                region: json::member_string(doc, "region"@)->0,
                postal_code: json::member_string(doc, "postal_code"@)->0,
                country: json::member_string(doc, "country"@)->0,
                cc_name: json::member_string(doc, "cc_name"@)->0,
                cc_number: json::member_string(doc, "cc_number"@)->0,
                cc_exp_month: json::member_string(doc, "cc_exp_month"@)->0,
                cc_exp_year: json::member_string(doc, "cc_exp_year"@)->0,
                updated: json::member_whole(doc, "updated"@)->0 as i64,
            },
        )
    } else {
        None
    }
}

/// The identity that a text holds.
pub open spec fn profile_in(s: Seq<char>) -> Option<AutofillProfile> {
    match json::parsed_json(s) {
        Some(doc) => read_profile(doc),
        None => None,
    }
}

fn read_fields(doc: &Json) -> (r: Option<AutofillProfile>)
    ensures
        r == read_profile(*doc),
{
    let full_name: String = doc.get_text("full_name")?;
    let email: String = doc.get_text("email")?;
    let phone: String = doc.get_text("phone")?;
    let organization: String = doc.get_text("organization")?;
    let address1: String = doc.get_text("address1")?;
    let address2: String = doc.get_text("address2")?;
    let city: String = doc.get_text("city")?;
    let region: String = doc.get_text("region")?;
    let postal_code: String = doc.get_text("postal_code")?;
    let country: String = doc.get_text("country")?;
    let cc_name: String = doc.get_text("cc_name")?;
    let cc_number: String = doc.get_text("cc_number")?;
    let cc_exp_month: String = doc.get_text("cc_exp_month")?;
    let cc_exp_year: String = doc.get_text("cc_exp_year")?;
    let updated: i64 = doc.get_whole("updated")?;
    Some(
        AutofillProfile {
            full_name,
            email,
            phone,
            organization,
            address1,
            address2,
            city,
            region,
            postal_code,
            country,
            cc_name,
            cc_number,
            cc_exp_month,
            cc_exp_year,
            updated,
        },
    )
}

impl AutofillProfile {
    fn to_json(&self) -> (r: Json)
        ensures
            json::is_keepable(r),
            read_profile(r) == Some(*self),
    {
        let m: Vec<(String, Json)> = vec![
            json::text_member("address1", &self.address1),
            json::text_member("address2", &self.address2),
            json::text_member("cc_exp_month", &self.cc_exp_month),
            json::text_member("cc_exp_year", &self.cc_exp_year),
            json::text_member("cc_name", &self.cc_name),
            json::text_member("cc_number", &self.cc_number),
            json::text_member("city", &self.city),
            json::text_member("country", &self.country),
            json::text_member("email", &self.email),
            json::text_member("full_name", &self.full_name),
            json::text_member("organization", &self.organization),
            json::text_member("phone", &self.phone),
            json::text_member("postal_code", &self.postal_code),
            json::text_member("region", &self.region),
            json::whole_member("updated", self.updated),
        ];
        proof {
            reveal_strlit("address1");
            reveal_strlit("address2");
            reveal_strlit("cc_exp_month");
            reveal_strlit("cc_exp_year");
            reveal_strlit("cc_name");
            reveal_strlit("cc_number");
            reveal_strlit("city");
            reveal_strlit("country");
            reveal_strlit("email");
            reveal_strlit("full_name");
            reveal_strlit("organization");
            reveal_strlit("phone");
            reveal_strlit("postal_code");
            reveal_strlit("region");
            reveal_strlit("updated");
            text::lemma_sorts_at("address1"@, "address2"@, 7);
            text::lemma_sorts_at("address2"@, "cc_exp_month"@, 0);
            text::lemma_sorts_at("cc_exp_month"@, "cc_exp_year"@, 7);
            text::lemma_sorts_at("cc_exp_year"@, "cc_name"@, 3);
            text::lemma_sorts_at("cc_name"@, "cc_number"@, 4);
            text::lemma_sorts_at("cc_number"@, "city"@, 1);
            text::lemma_sorts_at("city"@, "country"@, 1);
            text::lemma_sorts_at("country"@, "email"@, 0);
            text::lemma_sorts_at("email"@, "full_name"@, 0);
            text::lemma_sorts_at("full_name"@, "organization"@, 0);
            text::lemma_sorts_at("organization"@, "phone"@, 0);
            text::lemma_sorts_at("phone"@, "postal_code"@, 1);
            text::lemma_sorts_at("postal_code"@, "region"@, 0);
            text::lemma_sorts_at("region"@, "updated"@, 0);
            json::lemma_in_order(m@);
            json::lemma_plain_object(m);
            number::lemma_read_signed_decimal(self.updated);
            json::lemma_member_in_order(m@, 0);
            json::lemma_member_in_order(m@, 1);
            json::lemma_member_in_order(m@, 2);
            json::lemma_member_in_order(m@, 3);
            json::lemma_member_in_order(m@, 4);
            json::lemma_member_in_order(m@, 5);
            json::lemma_member_in_order(m@, 6);
            json::lemma_member_in_order(m@, 7);
            json::lemma_member_in_order(m@, 8);
            json::lemma_member_in_order(m@, 9);
            json::lemma_member_in_order(m@, 10);
            json::lemma_member_in_order(m@, 11);
            json::lemma_member_in_order(m@, 12);
            json::lemma_member_in_order(m@, 13);
            json::lemma_member_in_order(m@, 14);
        }
        Json::Object(m)
    }

    /// Writes the identity as a text, from which it can be read again.
    pub fn to_text(&self) -> (r: String)
        ensures
            profile_in(r@) == Some(*self),
    {
        json::to_compact(&self.to_json())
    }

    /// Reads an identity from a text.
    pub fn from_text(s: &str) -> (r: Option<AutofillProfile>)
        ensures
            r == profile_in(s@),
    {
        match json::parse_json(s) {
            Some(doc) => read_fields(&doc),
            None => None,
        }
    }
}

/// The identity that was kept in a file, given the text that it was decrypted to.
pub open spec fn kept_profile(plain: Option<String>) -> Option<AutofillProfile> {
    match plain {
        Some(s) => profile_in(s@),
        None => None,
    }
}

/// An identity that nothing was entered into.
pub open spec fn is_new_profile(p: AutofillProfile) -> bool {
    is_empty_profile(p) && p.updated == 0
}

/// The identity in memory, and where it is kept.
pub struct AutofillStore {
    path: String,
    profile: AutofillProfile,
    unlocked: bool,
}

impl AutofillStore {
    /// Where the identity is kept.
    pub closed spec fn path_view(&self) -> Seq<char> {
        self.path@
    }

    /// The identity in memory.
    pub closed spec fn profile_view(&self) -> AutofillProfile {
        self.profile
    }

    /// The identity can be read.
    pub closed spec fn unlocked_view(&self) -> bool {
        self.unlocked
    }

    /// A locked store for the file at this path.
    pub fn load(path: String) -> (r: AutofillStore)
        ensures
            r.path_view() == path@,
            is_new_profile(r.profile_view()),
            !r.unlocked_view(),
    {
        AutofillStore { path, profile: AutofillProfile::default(), unlocked: false }
    }

    /// Where the identity is kept.
    pub fn path(&self) -> (r: &str)
        ensures
            r@ == self.path_view(),
    {
        self.path.as_str()
    }

    pub fn is_unlocked(&self) -> (r: bool)
        ensures
            r == self.unlocked_view(),
    {
        self.unlocked
    }

    /// The identity in memory.
    pub fn profile(&self) -> (r: &AutofillProfile)
        ensures
            *r == self.profile_view(),
    {
        &self.profile
    }

    /// Replaces the identity in memory.
    pub fn set_profile(&mut self, profile: AutofillProfile)
        ensures
            final(self).profile_view() == profile,
            final(self).path_view() == old(self).path_view(),
            final(self).unlocked_view() == old(self).unlocked_view(),
    {
        self.profile = profile;
    }

    /// Unlocks the store, given what the file holds (`None` if it cannot be read) and what came of
    /// decrypting it: the error of a wrong passphrase, or the text, or nothing where it was none. A
    /// missing or empty file unlocks an empty identity, and so does one that holds none; an error
    /// leaves everything as it is.
    pub fn unlock(
        &mut self,
        blob: Option<&Vec<u8>>,
        opened: Result<Option<String>, String>,
    ) -> (r: Result<(), String>)
        ensures
            final(self).path_view() == old(self).path_view(),
            if blob is None || blob->0@.len() == 0 {
                r is Ok && final(self).unlocked_view() && is_new_profile(final(self).profile_view())
            } else {
                match opened {
                    Err(e) => r == Err::<(), String>(e) && *final(self) == *old(self),
                    Ok(t) => r is Ok && final(self).unlocked_view() && match kept_profile(t) {
                        Some(profile) => final(self).profile_view() == profile,
                        None => is_new_profile(final(self).profile_view()),
                    },
                }
            },
    {
        let profile: AutofillProfile = match blob {
            Some(b) => {
                if b.len() > 0 {
                    let plain: Option<String> = match opened {
                        Err(e) => {
                            return Err(e);
                        },
                        Ok(t) => t,
                    };
                    match plain {
                        Some(s) => match AutofillProfile::from_text(s.as_str()) {
                            Some(p) => p,
                            None => AutofillProfile::default(),
                        },
                        None => AutofillProfile::default(),
                    }
                } else {
                    AutofillProfile::default()
                }
            },
            None => AutofillProfile::default(),
        };
        self.profile = profile;
        self.unlocked = true;
        Ok(())
    }

    /// The text that is encrypted and written to the file. A store that is unlocked with it holds
    /// the identity of this one, in every field.
    pub fn save(&self) -> (r: String)
        ensures
            kept_profile(Some(r)) == Some(self.profile_view()),
    {
        self.profile.to_text()
    }

    /// Forgets the identity.
    pub fn lock(&mut self)
        ensures
            is_new_profile(final(self).profile_view()),
            !final(self).unlocked_view(),
            final(self).path_view() == old(self).path_view(),
    {
        self.profile = AutofillProfile::default();
        self.unlocked = false;
    }
}

// ---------------------------------------------------------------------------
// Laws
// ---------------------------------------------------------------------------

/// Each field of an identity is kept under its own name.
pub proof fn fields_are_kept_under_their_names(doc: Json)
    ensures
        read_profile(doc) matches Some(p) ==> {
            &&& json::member_string(doc, "full_name"@) == Some(p.full_name)
            &&& json::member_string(doc, "email"@) == Some(p.email)
            &&& json::member_string(doc, "phone"@) == Some(p.phone)
            &&& json::member_string(doc, "organization"@) == Some(p.organization)
            &&& json::member_string(doc, "address1"@) == Some(p.address1)
            &&& json::member_string(doc, "address2"@) == Some(p.address2)
            &&& json::member_string(doc, "city"@) == Some(p.city)
            &&& json::member_string(doc, "region"@) == Some(p.region)
            &&& json::member_string(doc, "postal_code"@) == Some(p.postal_code)
            &&& json::member_string(doc, "country"@) == Some(p.country)
            &&& json::member_string(doc, "cc_name"@) == Some(p.cc_name)
            &&& json::member_string(doc, "cc_number"@) == Some(p.cc_number)
            &&& json::member_string(doc, "cc_exp_month"@) == Some(p.cc_exp_month)
            &&& json::member_string(doc, "cc_exp_year"@) == Some(p.cc_exp_year)
            &&& json::member_whole(doc, "updated"@) is Some
        },
        read_profile(doc) is None ==> json::member_string(doc, "full_name"@) is None
            || json::member_string(doc, "email"@) is None || json::member_string(doc, "phone"@) is None
            || json::member_string(doc, "organization"@) is None || json::member_string(
            doc,
            "address1"@,
        ) is None || json::member_string(doc, "address2"@) is None || json::member_string(
            doc,
            "city"@,
        ) is None || json::member_string(doc, "region"@) is None || json::member_string(
            doc,
            "postal_code"@,
        ) is None || json::member_string(doc, "country"@) is None || json::member_string(
            doc,
            "cc_name"@,
        ) is None || json::member_string(doc, "cc_number"@) is None || json::member_string(
            doc,
            "cc_exp_month"@,
        ) is None || json::member_string(doc, "cc_exp_year"@) is None || json::member_whole(
            doc,
            "updated"@,
        ) is None,
{
}

/// A profile with anything in it is not empty, whichever field it is; one without is.
pub proof fn anything_filled_in_counts(p: AutofillProfile)
    ensures
        !is_empty_profile(p) <==> p.full_name@.len() > 0 || p.email@.len() > 0 || p.phone@.len() > 0 || p.organization@.len() > 0 || p.address1@.len() > 0 || p.address2@.len() > 0 || p.city@.len() > 0 || p.region@.len() > 0 || p.postal_code@.len() > 0 || p.country@.len() > 0 || p.cc_name@.len() > 0 || p.cc_number@.len() > 0 || p.cc_exp_month@.len() > 0 || p.cc_exp_year@.len() > 0,
{
}

} // verus!
