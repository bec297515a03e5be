//! A transfer session: the files approved out of one offer, and one upload
//! token per approved file.

use vstd::prelude::*;
use crate::model::{DeviceMessage, FileInfo, FileInfoView, FileResponse};
use crate::string_map::{Duplicate, StringMap};

verus! {

pub struct Mission {
    pub id: String,
    pub sender_device: DeviceMessage,
    pub id_token_map: StringMap<String>,
    pub info_map: StringMap<FileInfo>,
}

pub struct MissionView {
    pub id: Seq<char>,
    pub sender_device: DeviceMessage,
    pub id_token_map: Map<Seq<char>, Seq<char>>,
    pub info_map: Map<Seq<char>, FileInfoView>,
}

impl MissionView {
    /// Every approved file has a token, and every token belongs to an approved file.
    pub open spec fn wf(self) -> bool {
        self.id_token_map.dom() == self.info_map.dom()
    }
}

impl View for Mission {
    type V = MissionView;

    open spec fn view(&self) -> MissionView {
        MissionView {
            id: self.id@,
            sender_device: self.sender_device,
            id_token_map: self.id_token_map@,
            info_map: self.info_map@,
        }
    }
}

impl Clone for Mission {
    fn clone(&self) -> (r: Self)
        ensures
            r@ == self@,
    {
        Mission {
            id: self.id.clone(),
            sender_device: self.sender_device.clone(),
            id_token_map: self.id_token_map.duplicate(),
            info_map: self.info_map.duplicate(),
        }
    }
}

impl Duplicate for Mission {
    fn duplicate(&self) -> (r: Mission) {
        self.clone()
    }
}

/// The length of a UUID written in its hyphenated form.
pub const UUID_TEXT_LEN: usize = 36;

/// Relies on `uuid::Uuid::new_v4` and the `Display` of `uuid::Uuid`: a random
/// version-4 UUID, written in the hyphenated form, which is 36 characters long.
#[verifier::external_body]
fn fresh_id() -> (r: String)
    ensures
        r@.len() == UUID_TEXT_LEN,
{
    uuid::Uuid::new_v4().to_string()
}

impl Mission {
    /// The session `id` for the files of `info_map`, where the file at
    /// position `i` of the map's key order gets `tokens[i]`.
    pub fn from_parts(
        id: String,
        info_map: StringMap<FileInfo>,
        sender_device: DeviceMessage,
        tokens: Vec<String>,
    ) -> (r: Mission)
        requires
            tokens@.len() == info_map.key_seq().len(),
        ensures
            r.id == id,
            r.sender_device == sender_device,
            r.info_map@ == info_map@,
            r@.wf(),
            forall|i: int|
                0 <= i < tokens@.len() ==> r.id_token_map@[#[trigger] info_map.key_seq()[i]]
                    == tokens@[i]@,
    {
        let n = info_map.len();
        let ghost keys = info_map.key_seq();
        let mut id_token_map: StringMap<String> = StringMap::new();
        let mut i: usize = 0;
        while i < n
            invariant
                n == keys.len(),
                n == tokens@.len(),
                keys == info_map.key_seq(),
                keys.no_duplicates(),
                i <= n,
                forall|j: int|
                    0 <= j < i ==> id_token_map@.contains_key(#[trigger] keys[j])
                        && id_token_map@[keys[j]] == tokens@[j]@,
                forall|k: Seq<char>| #[trigger]
                    id_token_map@.contains_key(k) ==> exists|j: int| 0 <= j < i && keys[j] == k,
            decreases n - i,
        {
            let (key, _) = info_map.entry_at(i);
            let ghost before = id_token_map@;
            id_token_map.insert(key.clone(), tokens[i].clone());
            assert forall|j: int| 0 <= j < i implies keys[j] != keys[i as int] by {}
            assert forall|k: Seq<char>| #[trigger] id_token_map@.contains_key(k) implies exists|
                j: int,
            | 0 <= j < i + 1 && keys[j] == k by {
                if k != keys[i as int] {
                    assert(before.contains_key(k));
                }
            }
            i = i + 1;
        }
        assert forall|k: Seq<char>| #[trigger]
            id_token_map@.contains_key(k) <==> info_map@.contains_key(k) by {
            if info_map@.contains_key(k) {
                assert(keys.contains(k));
                let j = choose|j: int| 0 <= j < keys.len() && keys[j] == k;
                assert(id_token_map@.contains_key(keys[j]));
            }
            if id_token_map@.contains_key(k) {
                let j = choose|j: int| 0 <= j < i && keys[j] == k;
                assert(keys.contains(keys[j]));
            }
        }
        assert(id_token_map@.dom() =~= info_map@.dom());
        Mission { id, sender_device, id_token_map, info_map }
    }

    /// A fresh session for the files of `info_map`, offered by `sender_device`:
    /// a random session id and a random token per file.
    pub fn new(info_map: StringMap<FileInfo>, sender_device: DeviceMessage) -> (r: Mission)
        ensures
            r.sender_device == sender_device,
            r.info_map@ == info_map@,
            r@.wf(),
            r.id@.len() == UUID_TEXT_LEN,
            forall|k: Seq<char>| #[trigger]
                r.id_token_map@.contains_key(k) ==> r.id_token_map@[k].len() == UUID_TEXT_LEN,
    {
        let id = fresh_id();
        let n = info_map.len();
        let mut tokens: Vec<String> = Vec::new();
        let mut i: usize = 0;
        while i < n
            invariant
                i <= n,
                tokens@.len() == i,
                forall|j: int| 0 <= j < i ==> (#[trigger] tokens@[j])@.len() == UUID_TEXT_LEN,
            decreases n - i,
        {
            tokens.push(fresh_id());
            i = i + 1;
        }
        let ghost keys = info_map.key_seq();
        let r = Mission::from_parts(id, info_map, sender_device, tokens);
        assert forall|k: Seq<char>| #[trigger]
            r.id_token_map@.contains_key(k) implies r.id_token_map@[k].len() == UUID_TEXT_LEN by {
            assert(keys.contains(k));
            let j = choose|j: int| 0 <= j < keys.len() && keys[j] == k;
            assert(r.id_token_map@[keys[j]] == tokens@[j]@);
        }
        r
    }

    /// What the offering peer is told: the session id and the token of each file.
    pub fn response(&self) -> (r: FileResponse)
        ensures
            r@.session_id == self.id@,
            r@.files == self.id_token_map@,
    {
        FileResponse { session_id: self.id.clone(), files: self.id_token_map.duplicate() }
    }
}

} // verus!
