use crate::attributes::{
    attribute_entries, lemma_no_colon_no_attributes, lines_of, lookup, parse_attributes,
    render_map, AttributeMap, Entry,
};
use crate::date::{date_result, parse_date, UtcDateTime};
use vstd::prelude::*;

verus! {

/// The certificate description handed over by the TLS layer: one
/// `Name:Value` line per attribute.
pub struct CertInfo {
    pub data: Vec<String>,
}

/// A certificate's descriptive metadata.
#[derive(Clone, Debug, PartialEq, Eq)]
pub struct Certificate {
    pub subject: String,
    pub issuer: String,
    pub start_date: UtcDateTime,
    pub expire_date: UtcDateTime,
    pub serial_number: String,
}

/// The certificate record with its texts as sequences of characters.
pub struct CertificateView {
    pub subject: Seq<char>,
    pub issuer: Seq<char>,
    pub start_date: UtcDateTime,
    pub expire_date: UtcDateTime,
    pub serial_number: Seq<char>,
}

impl View for Certificate {
    type V = CertificateView;

    open spec fn view(&self) -> CertificateView {
        CertificateView {
            subject: self.subject@,
            issuer: self.issuer@,
            start_date: self.start_date,
            expire_date: self.expire_date,
            serial_number: self.serial_number@,
        }
    }
}

pub open spec fn missing_subject(e: Seq<Entry>) -> Seq<char> {
    "missing Subject attribute in "@ + render_map(e)
}

pub open spec fn missing_issuer(e: Seq<Entry>) -> Seq<char> {
    "missing issuer attribute in "@ + render_map(e)
}

pub open spec fn missing_start_date(e: Seq<Entry>) -> Seq<char> {
    "missing start date attribute in "@ + render_map(e)
}

pub open spec fn missing_expire_date() -> Seq<char> {
    "missing expire date attribute"@
}

pub open spec fn missing_serial_number(e: Seq<Entry>) -> Seq<char> {
    "Missing serial number attribute in "@ + render_map(e)
}

/// The value under `key`, or the error `err` where there is none.
pub open spec fn text_field(e: Seq<Entry>, key: Seq<char>, err: Seq<char>) -> Result<
    Seq<char>,
    Seq<char>,
> {
    match lookup(e, key) {
        Some(v) => Ok(v),
        None => Err(err),
    }
}

/// The date under `key`, or the error `err` where there is none.
pub open spec fn date_field(e: Seq<Entry>, key: Seq<char>, err: Seq<char>) -> Result<
    UtcDateTime,
    Seq<char>,
> {
    match lookup(e, key) {
        Some(v) => date_result(v),
        None => Err(err),
    }
}

pub open spec fn subject_result(e: Seq<Entry>) -> Result<Seq<char>, Seq<char>> {
    text_field(e, "subject"@, missing_subject(e))
}

pub open spec fn issuer_result(e: Seq<Entry>) -> Result<Seq<char>, Seq<char>> {
    text_field(e, "issuer"@, missing_issuer(e))
}

pub open spec fn start_date_result(e: Seq<Entry>) -> Result<UtcDateTime, Seq<char>> {
    date_field(e, "start date"@, missing_start_date(e))
}

pub open spec fn expire_date_result(e: Seq<Entry>) -> Result<UtcDateTime, Seq<char>> {
    date_field(e, "expire date"@, missing_expire_date())
}

pub open spec fn serial_number_result(e: Seq<Entry>) -> Result<Seq<char>, Seq<char>> {
    text_field(e, "serial number"@, missing_serial_number(e))
}

/// The record that the entries give, or the error of the first field that
/// fails, in the order subject, issuer, start date, expire date, serial number.
pub open spec fn certificate_result(e: Seq<Entry>) -> Result<CertificateView, Seq<char>> {
    match subject_result(e) {
        Err(m) => Err(m),
        Ok(subject) => match issuer_result(e) {
            Err(m) => Err(m),
            Ok(issuer) => match start_date_result(e) {
                Err(m) => Err(m),
                Ok(start_date) => match expire_date_result(e) {
                    Err(m) => Err(m),
                    Ok(expire_date) => match serial_number_result(e) {
                        Err(m) => Err(m),
                        Ok(serial_number) => Ok(
                            CertificateView {
                                subject,
                                issuer,
                                start_date,
                                expire_date,
                                serial_number,
                            },
                        ),
                    },
                },
            },
        },
    }
}

/// The record that the lines give.
pub open spec fn certificate_of(lines: Seq<Seq<char>>) -> Result<CertificateView, Seq<char>> {
    certificate_result(attribute_entries(lines))
}

pub open spec fn text_view(r: Result<String, String>) -> Result<Seq<char>, Seq<char>> {
    match r {
        Ok(v) => Ok(v@),
        Err(m) => Err(m@),
    }
}

pub open spec fn date_view(r: Result<UtcDateTime, String>) -> Result<UtcDateTime, Seq<char>> {
    match r {
        Ok(d) => Ok(d),
        Err(m) => Err(m@),
    }
}

pub open spec fn certificate_view(r: Result<Certificate, String>) -> Result<
    CertificateView,
    Seq<char>,
> {
    match r {
        Ok(c) => Ok(c@),
        Err(m) => Err(m@),
    }
}

/// Lines without a colon give no attribute, so each field is missing and the
/// record fails on its first one, the subject.
pub proof fn lemma_no_colon_every_field_missing(lines: Seq<Seq<char>>)
    requires
        forall|i: int| 0 <= i < lines.len() ==> !(#[trigger] lines[i]).contains(':'),
    ensures
        subject_result(attribute_entries(lines)) == Err::<Seq<char>, Seq<char>>(
            missing_subject(Seq::empty()),
        ),
        issuer_result(attribute_entries(lines)) == Err::<Seq<char>, Seq<char>>(
            missing_issuer(Seq::empty()),
        ),
        start_date_result(attribute_entries(lines)) == Err::<UtcDateTime, Seq<char>>(
            missing_start_date(Seq::empty()),
        ),
        expire_date_result(attribute_entries(lines)) == Err::<UtcDateTime, Seq<char>>(
            missing_expire_date(),
        ),
        serial_number_result(attribute_entries(lines)) == Err::<Seq<char>, Seq<char>>(
            missing_serial_number(Seq::empty()),
        ),
        certificate_of(lines) == Err::<CertificateView, Seq<char>>(missing_subject(Seq::empty())),
{
    lemma_no_colon_no_attributes(lines);
}

/// With subject, issuer and a readable start date present, a missing expire
/// date fails the record with its own error, whatever the serial number.
pub proof fn lemma_missing_expire_date(lines: Seq<Seq<char>>)
    requires
        lookup(attribute_entries(lines), "subject"@) is Some,
        lookup(attribute_entries(lines), "issuer"@) is Some,
        lookup(attribute_entries(lines), "start date"@) matches Some(v) && date_result(v) is Ok,
        lookup(attribute_entries(lines), "expire date"@) is None,
    ensures
        certificate_of(lines) == Err::<CertificateView, Seq<char>>(missing_expire_date()),
{
}

/// Reads the subject.
pub fn parse_subject(attributes: &AttributeMap) -> (r: Result<String, String>)
    ensures
        text_view(r) == subject_result(attributes.entries()),
{
    match attributes.get("subject") {
        Some(v) => Ok(v.clone()),
        None => {
            let mut m = String::from_str("missing Subject attribute in ");
            let dump = attributes.render();
            m.append(dump.as_str());
            Err(m)
        },
    }
}

/// Reads the issuer.
pub fn parse_issuer(attributes: &AttributeMap) -> (r: Result<String, String>)
    ensures
        text_view(r) == issuer_result(attributes.entries()),
{
    match attributes.get("issuer") {
        Some(v) => Ok(v.clone()),
        None => {
            let mut m = String::from_str("missing issuer attribute in ");
            let dump = attributes.render();
            m.append(dump.as_str());
            Err(m)
        },
    }
}

/// Reads and parses the start date.
pub fn parse_start_date(attributes: &AttributeMap) -> (r: Result<UtcDateTime, String>)
    ensures
        date_view(r) == start_date_result(attributes.entries()),
        r matches Ok(d) ==> d.wf(),
{
    match attributes.get("start date") {
        None => {
            let mut m = String::from_str("missing start date attribute in ");
            let dump = attributes.render();
            m.append(dump.as_str());
            Err(m)
        },
        Some(value) => parse_date(value.as_str()),
    }
}

/// Reads and parses the expire date.
pub fn parse_expire_date(attributes: &AttributeMap) -> (r: Result<UtcDateTime, String>)
    ensures
        date_view(r) == expire_date_result(attributes.entries()),
        r matches Ok(d) ==> d.wf(),
{
    match attributes.get("expire date") {
        None => Err(String::from_str("missing expire date attribute")),
        Some(value) => parse_date(value.as_str()),
    }
}

/// Reads the serial number, in its textual form.
pub fn parse_serial_number(attributes: &AttributeMap) -> (r: Result<String, String>)
    ensures
        text_view(r) == serial_number_result(attributes.entries()),
{
    match attributes.get("serial number") {
        Some(v) => Ok(v.clone()),
        None => {
            let mut m = String::from_str("Missing serial number attribute in ");
            let dump = attributes.render();
            m.append(dump.as_str());
            Err(m)
        },
    }
}

impl Certificate {
    /// Builds the record from the lines of `cert_info`, failing on the first
    /// field that is missing or unreadable.
    pub fn try_from(cert_info: CertInfo) -> (r: Result<Certificate, String>)
        ensures
            certificate_view(r) == certificate_of(lines_of(cert_info.data@)),
            r matches Ok(c) ==> c.start_date.wf() && c.expire_date.wf(),
    {
        let attributes = parse_attributes(&cert_info.data);
        let subject = match parse_subject(&attributes) {
            Ok(v) => v,
            Err(m) => return Err(m),
        };
        let issuer = match parse_issuer(&attributes) {
            Ok(v) => v,
            Err(m) => return Err(m),
        };
        let start_date = match parse_start_date(&attributes) {
            Ok(v) => v,
            Err(m) => return Err(m),
        };
        let expire_date = match parse_expire_date(&attributes) {
            Ok(v) => v,
            Err(m) => return Err(m),
        };
        let serial_number = match parse_serial_number(&attributes) {
            Ok(v) => v,
            Err(m) => return Err(m),
        };
        Ok(Certificate { subject, issuer, start_date, expire_date, serial_number })
    }
}

} // verus!
