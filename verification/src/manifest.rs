use vstd::prelude::*;
use vstd::string::StringExecFns;

verus! {

/// The place of the AppStream metadata.
pub const APPDATA_PATH: &'static str = "/usr/share/appdata/code.appdata.xml";

/// The place of the desktop entry.
pub const DESKTOP_PATH: &'static str = "/usr/share/applications/code.desktop";

/// The place of the desktop entry that handles the URLs of the release.
pub const URL_HANDLER_PATH: &'static str = "/usr/share/applications/code-url-handler.desktop";

/// The place of the description of the workspace file type.
pub const WORKSPACE_PATH: &'static str = "/usr/share/mine/packages/code-workspace.xml";

/// The place of the icon.
pub const ICON_PATH: &'static str = "/usr/share/pixmaps/com.visualstudio.code.png";

/// The directory of AppStream metadata.
pub const APPDATA_DIRECTORY: &'static str = "/usr/share/appdata";

/// The directory of desktop entries.
pub const APPLICATIONS_DIRECTORY: &'static str = "/usr/share/applications";

/// The directory of descriptions of file types.
pub const PACKAGES_DIRECTORY: &'static str = "/usr/share/mine/packages";

/// The directory of icons.
pub const PIXMAPS_DIRECTORY: &'static str = "/usr/share/pixmaps";

/// A file of the desktop integration: where it goes and what it holds.
#[derive(Debug, Clone, PartialEq, Eq)]
pub struct Asset {
    pub path: String,
    pub content: Vec<u8>,
}

/// An [`Asset`] with its path and content as sequences.
pub struct AssetView {
    pub path: Seq<char>,
    pub content: Seq<u8>,
}

impl View for Asset {
    type V = AssetView;

    open spec fn view(&self) -> AssetView {
        AssetView { path: self.path@, content: self.content@ }
    }
}

/// The files of the desktop integration, in the order in which they are
/// installed, and the directories that must exist before them.
#[derive(Debug, Clone, PartialEq, Eq)]
pub struct Manifest {
    pub directories: Vec<String>,
    pub assets: Vec<Asset>,
}

/// A [`Manifest`] with its paths and contents as sequences.
pub struct ManifestView {
    pub directories: Seq<Seq<char>>,
    pub assets: Seq<AssetView>,
}

impl View for Manifest {
    type V = ManifestView;

    open spec fn view(&self) -> ManifestView {
        ManifestView {
            directories: self.directories@.map_values(|d: String| d@),
            assets: self.assets@.map_values(|a: Asset| a@),
        }
    }
}

/// The desktop integration of the release: AppStream metadata, two desktop
/// entries, the description of the workspace file type, and the icon.
pub open spec fn desktop_manifest(
    appdata: Seq<u8>,
    desktop: Seq<u8>,
    url_handler: Seq<u8>,
    workspace: Seq<u8>,
    icon: Seq<u8>,
) -> ManifestView {
    ManifestView {
        directories: seq![
            APPDATA_DIRECTORY@,
            APPLICATIONS_DIRECTORY@,
            PACKAGES_DIRECTORY@,
            PIXMAPS_DIRECTORY@,
        ],
        assets: seq![
            AssetView { path: APPDATA_PATH@, content: appdata },
            AssetView { path: DESKTOP_PATH@, content: desktop },
            AssetView { path: URL_HANDLER_PATH@, content: url_handler },
            AssetView { path: WORKSPACE_PATH@, content: workspace },
            AssetView { path: ICON_PATH@, content: icon },
        ],
    }
}

impl Manifest {
    /// The desktop integration of the release, with the given contents at
    /// the fixed places.
    pub fn desktop(
        appdata: Vec<u8>,
        desktop: Vec<u8>,
        url_handler: Vec<u8>,
        workspace: Vec<u8>,
        icon: Vec<u8>,
    ) -> (m: Manifest)
        ensures
            m@ == desktop_manifest(appdata@, desktop@, url_handler@, workspace@, icon@),
    {
        let mut directories: Vec<String> = Vec::new();
        directories.push(String::from_str(APPDATA_DIRECTORY));
        directories.push(String::from_str(APPLICATIONS_DIRECTORY));
        directories.push(String::from_str(PACKAGES_DIRECTORY));
        directories.push(String::from_str(PIXMAPS_DIRECTORY));
        let mut assets: Vec<Asset> = Vec::new();
        assets.push(Asset { path: String::from_str(APPDATA_PATH), content: appdata });
        assets.push(Asset { path: String::from_str(DESKTOP_PATH), content: desktop });
        assets.push(Asset { path: String::from_str(URL_HANDLER_PATH), content: url_handler });
        assets.push(Asset { path: String::from_str(WORKSPACE_PATH), content: workspace });
        assets.push(Asset { path: String::from_str(ICON_PATH), content: icon });
        let m = Manifest { directories, assets };
        proof {
            assert(m@.directories =~= desktop_manifest(
                appdata@,
                desktop@,
                url_handler@,
                workspace@,
                icon@,
            ).directories);
            assert(m@.assets =~= desktop_manifest(
                appdata@,
                desktop@,
                url_handler@,
                workspace@,
                icon@,
            ).assets);
        }
        m
    }
}

} // verus!
