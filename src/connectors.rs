//! Descriptions of the data connectors the runtime knows.

use vstd::prelude::*;
use vstd::string::*;

verus! {

/// State of a connection to a data source.
#[derive(Debug)]
pub enum ConnectionStatus {
    Connected,
    Disconnected,
    Error(String),
    Syncing,
}

/// Kinds of items a connector delivers.
#[derive(Debug)]
pub enum DataType {
    Document,
    Email,
    Calendar,
    Task,
    Note,
    File,
    Message,
    Contact,
    Custom(String),
}

/// Identity and provenance of a connector.
#[derive(Debug)]
pub struct ConnectorInfo {
    pub id: String,
    pub name: String,
    pub description: String,
    pub version: String,
    pub provider: String,
}

fn info(id: &str, name: &str, description: &str, provider: &str) -> (r: ConnectorInfo)
    ensures
        r.id@ == id@,
        r.name@ == name@,
        r.description@ == description@,
        r.version@ == "1.0.0"@,
        r.provider@ == provider@,
{
    proof {
        reveal_strlit("1.0.0");
    }
    ConnectorInfo {
        id: id.to_string(),
        name: name.to_string(),
        description: description.to_string(),
        version: String::from_str("1.0.0"),
        provider: provider.to_string(),
    }
}

/// Local files and directories.
#[derive(Debug)]
pub struct FilesystemConnector;

impl FilesystemConnector {
    pub fn get_connector_info(&self) -> (r: ConnectorInfo)
        ensures
            r.id@ == "filesystem"@,
            r.provider@ == "Built-in"@,
    {
        proof {
            reveal_strlit("filesystem");
            reveal_strlit("Built-in");
        }
        info("filesystem", "Local Filesystem", "Connect to local files and directories", "Built-in")
    }

    pub fn get_supported_data_types(&self) -> (r: Vec<DataType>)
        ensures
            r@.len() == 2 && r@[0] is File && r@[1] is Document,
    {
        vec![DataType::File, DataType::Document]
    }

    pub fn get_required_permissions(&self) -> (r: Vec<String>)
        ensures
            r@.len() == 2 && r@[0]@ == "filesystem.read"@ && r@[1]@ == "filesystem.write"@,
    {
        proof {
            reveal_strlit("filesystem.read");
            reveal_strlit("filesystem.write");
        }
        vec![String::from_str("filesystem.read"), String::from_str("filesystem.write")]
    }
}

/// Files and folders of Google Drive.
#[derive(Debug)]
pub struct GoogleDriveConnector;

impl GoogleDriveConnector {
    pub fn get_connector_info(&self) -> (r: ConnectorInfo)
        ensures
            r.id@ == "google_drive"@,
            r.provider@ == "Google"@,
    {
        proof {
            reveal_strlit("google_drive");
            reveal_strlit("Google");
        }
        info("google_drive", "Google Drive", "Connect to Google Drive files and folders", "Google")
    }

    pub fn get_supported_data_types(&self) -> (r: Vec<DataType>)
        ensures
            r@.len() == 2 && r@[0] is File && r@[1] is Document,
    {
        vec![DataType::File, DataType::Document]
    }

    pub fn get_required_permissions(&self) -> (r: Vec<String>)
        ensures
            r@.len() == 1 && r@[0]@ == "google.drive.readonly"@,
    {
        proof {
            reveal_strlit("google.drive.readonly");
        }
        vec![String::from_str("google.drive.readonly")]
    }
}

/// Pages and databases of Notion.
#[derive(Debug)]
pub struct NotionConnector;

impl NotionConnector {
    pub fn get_connector_info(&self) -> (r: ConnectorInfo)
        ensures
            r.id@ == "notion"@,
            r.provider@ == "Notion"@,
    {
        proof {
            reveal_strlit("notion");
            reveal_strlit("Notion");
        }
        info("notion", "Notion", "Connect to Notion pages and databases", "Notion")
    }

    pub fn get_supported_data_types(&self) -> (r: Vec<DataType>)
        ensures
            r@.len() == 3 && r@[0] is Document && r@[1] is Note && r@[2] is Task,
    {
        vec![DataType::Document, DataType::Note, DataType::Task]
    }

    pub fn get_required_permissions(&self) -> (r: Vec<String>)
        ensures
            r@.len() == 1 && r@[0]@ == "notion.read"@,
    {
        proof {
            reveal_strlit("notion.read");
        }
        vec![String::from_str("notion.read")]
    }
}

} // verus!
