use vstd::prelude::*;

verus! {

/// Marker for payloads an API response may carry.
pub trait MagpieData {

}

/// Status of a response, as the shared client types know it.
#[derive(PartialEq, Eq, Structural, Clone, Copy, Debug)]
pub enum MagpieStatus {
    Okay,
    Error,
    Unimplemented,
}

impl MagpieStatus {
    /// The display name of the status, in PascalCase.
    pub fn as_string(&self) -> (r: String)
        ensures
            self is Okay ==> r@ == "Ok"@,
            self is Error ==> r@ == "Error"@,
            self is Unimplemented ==> r@ == "Unimplemented"@,
    {
        match self {
            MagpieStatus::Okay => String::from_str("Ok"),
            MagpieStatus::Error => String::from_str("Error"),
            MagpieStatus::Unimplemented => String::from_str("Unimplemented"),
        }
    }

    /// Parse a display name back, without case.
    pub fn from_string(s: &String) -> (r: Option<MagpieStatus>)
        ensures
            crate::text::eq_ci(s@, "Ok"@) ==> r == Some(MagpieStatus::Okay),
            crate::text::eq_ci(s@, "Error"@) ==> r == Some(MagpieStatus::Error),
            crate::text::eq_ci(s@, "Unimplemented"@) ==> r == Some(MagpieStatus::Unimplemented),
    {
        proof {
            reveal_strlit("Ok");
            reveal_strlit("Error");
            reveal_strlit("Unimplemented");
            assert(forall|x: Seq<char>|
                (#[trigger] crate::text::lower_chars(x)).len() == x.len());
            assert("Ok"@.len() == 2 && "Error"@.len() == 5 && "Unimplemented"@.len() == 13);
        }
        if crate::text::str_eq_ci(s.as_str(), "Ok") {
            Some(MagpieStatus::Okay)
        } else if crate::text::str_eq_ci(s.as_str(), "Error") {
            Some(MagpieStatus::Error)
        } else if crate::text::str_eq_ci(s.as_str(), "Unimplemented") {
            Some(MagpieStatus::Unimplemented)
        } else {
            None
        }
    }
}

/// A response envelope over any payload type.
pub struct MagpieResponse<T: MagpieData> {
    pub status: MagpieStatus,
    pub count: Option<usize>,
    pub page: Option<usize>,
    pub data: Vec<T>,
}

impl<T: MagpieData> MagpieResponse<T> {
    /// The status.
    pub fn status(self) -> (r: MagpieStatus)
        ensures
            r == self.status,
    {
        self.status
    }

    /// How many items the response carries.
    pub fn count(self) -> (r: Option<usize>)
        ensures
            r == self.count,
    {
        self.count
    }

    /// Which page the response carries.
    pub fn page(self) -> (r: Option<usize>)
        ensures
            r == self.page,
    {
        self.page
    }

    /// The payload.
    pub fn data(self) -> (r: Vec<T>)
        ensures
            r == self.data,
    {
        self.data
    }

    /// Set the status.
    pub fn set_status(self, status: MagpieStatus) -> (r: MagpieResponse<T>)
        ensures
            r.status == status,
            r.count == self.count,
            r.page == self.page,
            r.data == self.data,
    {
        MagpieResponse { status, ..self }
    }

    /// Replace the payload and its count.
    pub fn set_data(self, data: Vec<T>) -> (r: MagpieResponse<T>)
        ensures
            r.data == data,
            r.count == Some(data.len() as usize),
            r.status == self.status,
            r.page == self.page,
    {
        let count = data.len();
        MagpieResponse { data, count: Some(count), ..self }
    }

    /// Append one item to the payload and bump the count.
    pub fn push_data(self, item: T) -> (r: MagpieResponse<T>)
        requires
            self.data.len() < usize::MAX,
        ensures
            r.data@ == self.data@.push(item),
            r.count == Some((self.data.len() + 1) as usize),
            r.status == self.status,
            r.page == self.page,
    {
        let mut data = self.data;
        data.push(item);
        let count = data.len();
        MagpieResponse { status: self.status, count: Some(count), page: self.page, data }
    }

    /// Append a whole batch to the payload and set the count.
    pub fn append_data(self, items: &mut Vec<T>) -> (r: MagpieResponse<T>)
        requires
            self.data.len() + old(items).len() <= usize::MAX,
        ensures
            r.data@ == self.data@ + old(items)@,
            r.count == Some((self.data.len() + old(items).len()) as usize),
            final(items)@.len() == 0,
            r.status == self.status,
            r.page == self.page,
    {
        let mut data = self.data;
        data.append(items);
        let count = data.len();
        MagpieResponse { status: self.status, count: Some(count), page: self.page, data }
    }

    /// Set the page.
    pub fn set_page(self, page: usize) -> (r: MagpieResponse<T>)
        ensures
            r.page == Some(page),
            r.status == self.status,
            r.count == self.count,
            r.data == self.data,
    {
        MagpieResponse { page: Some(page), ..self }
    }
}

/// A minimal artist reference.
#[derive(PartialEq, Eq, Debug)]
pub struct SimpleArtist {
    pub id: usize,
    pub name: String,
}

/// A minimal album reference.
#[derive(PartialEq, Eq, Debug)]
pub struct SimpleAlbum {
    pub id: usize,
    pub title: String,
    pub year: usize,
}

/// A minimal track reference.
#[derive(PartialEq, Eq, Debug)]
pub struct SimpleTrack {
    pub id: usize,
    pub title: String,
}

/// An artist with its albums.
#[derive(PartialEq, Eq, Debug)]
pub struct Artist {
    pub id: usize,
    pub name: String,
    pub albums: Vec<SimpleAlbum>,
}

/// An album with its artists and tracks.
#[derive(PartialEq, Eq, Debug)]
pub struct Album {
    pub id: usize,
    pub title: String,
    pub year: usize,
    pub artist: Vec<SimpleArtist>,
    pub tracks: Vec<SimpleTrack>,
}

/// A track with its artists.
#[derive(PartialEq, Eq, Debug)]
pub struct Track {
    pub id: usize,
    pub title: String,
    pub year: usize,
    pub artist: Vec<SimpleArtist>,
}

impl MagpieData for Artist {

}

impl MagpieData for Album {

}

impl MagpieData for Track {

}

impl MagpieData for SimpleTrack {

}

impl MagpieData for SimpleAlbum {

}

impl MagpieData for SimpleArtist {

}

} // verus!
