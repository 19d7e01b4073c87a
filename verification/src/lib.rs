pub mod identity;
pub mod item;
pub mod net;
pub mod numbers;
pub mod pager;
pub mod scanner;
pub mod skybox;
pub mod soap;
pub mod strutil;
pub mod xml;

pub use identity::{ServiceIdentity, sky_browse, sky_play};
pub use item::{Item, ItemError, ServiceType, Timestamp, parse_duration, string_of_element};
pub use net::NetLocation;
pub use pager::{BrowseError, BrowsePage, PageCursor, decode_browse_response};
pub use scanner::{ScanError, correlate, extract_service_url, record_endpoint, resolve_endpoint, select_box};
pub use skybox::{SkyBox, SkyBoxError};
pub use soap::{as_elements, envelope};
pub use xml::{XmlDocument, XmlElem, parse_xml};
