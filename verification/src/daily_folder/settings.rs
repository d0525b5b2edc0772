//! Configuration: the [`Settings`] struct and its default values.
use vstd::prelude::*;

use crate::daily_folder::template::month_key;
use crate::month_defaults::{spanish_month_names, spanish_month_table};
use crate::month_names::MonthNames;
use crate::settings_doc::{
    default_document, document_keys, holds_names, lemma_default_document_values, settings_document, value_of,
    DocumentText,
};
use crate::toml_doc::{toml_document, TomlTable, TomlValue};

verus! {

/// The default root directory.
pub const DEFAULT_ROOT_DIRECTORY: &'static str = "./";

/// The default path template.
pub const DEFAULT_CREATE_PATH: &'static str = "./%Y/%m %B/%d";

/// The default name of the printed folder.
pub const DEFAULT_FOLDER_NAME: &'static str = "impresos";

/// The key of the trigger extensions in the configuration file.
pub const EXTENSIONS_KEY: &'static str = "extension_trigger_impresos";

/// The key of the printed folder's name in the configuration file.
pub const FOLDER_KEY: &'static str = "impresos_folder_name";

/// The comment before the root directory in the configuration file.
pub const ROOT_DIRECTORY_COMMENT: &'static str = "# Directorio raíz donde se crea la estructura de fechas.\n# Por defecto es la ubicación de la aplicación.\n# Caso de uso real podría ser otra partición, ej. `D:\\`\n";

/// The comment before the path template in the configuration file.
pub const CREATE_PATH_COMMENT: &'static str = "# Template de ruta con especificadores de Chrono.\n# %Y = año 4 dígitos\n# %m = mes 2 dígitos\n# %d = día 2 dígitos\n# %B = nombre del mes (tomado de [month_names])\n";

/// The comment before the trigger extensions in the configuration file.
pub const EXTENSIONS_COMMENT: &'static str = "# Extensiones que disparan la creación de la carpeta de impresos\n# La lista puede crecer en el futuro.\n";

/// The comment before the file-count threshold in the configuration file.
pub const MAX_FILES_COMMENT: &'static str = "# Número máximo de archivos en un directorio día antes de crear\n# automáticamente la carpeta de impresos.\n";

/// The comment before the printed folder's name in the configuration file.
pub const FOLDER_COMMENT: &'static str = "# Nombre de la carpeta de impresos a crear dentro del directorio día.\n";

/// The comment before the link switch in the configuration file.
pub const CREATE_LINK_COMMENT: &'static str = "# Si es true, crea un acceso directo (.lnk) al directorio del día\n# en el directorio raíz.  No requiere permisos de administrador.\n";

/// The comment before the extra link directories in the configuration file.
pub const DUPLICATES_COMMENT: &'static str = "# Directorios adicionales donde copiar el acceso directo (.lnk).\n# Ejemplo: [\"C:\\Users\\anton\\Desktop\"]\n# Si un directorio no existe, se omite sin error.\n";

/// The comment before the month-name table in the configuration file.
pub const MONTH_NAMES_COMMENT: &'static str = "# Tabla de nombres de meses.\n# Opcional: si la localización del sistema funciona, se puede dejar vacía.\n# Por defecto se rellena con nombres en español para compatibilidad con Windows 7.\n";

fn default_root_directory() -> (r: String)
    ensures
        r@ == DEFAULT_ROOT_DIRECTORY@,
{
    DEFAULT_ROOT_DIRECTORY.to_owned()
}

fn default_create_path() -> (r: String)
    ensures
        r@ == DEFAULT_CREATE_PATH@,
{
    DEFAULT_CREATE_PATH.to_owned()
}

/// The extensions that trigger the printed folder by default.
pub open spec fn default_extension_views() -> Seq<Seq<char>> {
    seq!["pdf"@, "png"@, "_tf"@]
}

fn default_extensions() -> (r: Vec<String>)
    ensures
        r@.map_values(|s: String| s@) == default_extension_views(),
{
    let mut v: Vec<String> = Vec::new();
    v.push("pdf".to_owned());
    v.push("png".to_owned());
    v.push("_tf".to_owned());
    assert(v@.map_values(|s: String| s@) =~= default_extension_views());
    v
}

fn default_max_files() -> (r: u8)
    ensures
        r == 5,
{
    5
}

/// Name of the folder created inside the day directory.
fn default_done_folder() -> (r: String)
    ensures
        r@ == DEFAULT_FOLDER_NAME@,
{
    DEFAULT_FOLDER_NAME.to_owned()
}

fn default_create_link() -> (r: bool)
    ensures
        r,
{
    true
}

fn default_duplicate_link_targets() -> (r: Vec<String>)
    ensures
        r@.len() == 0,
{
    Vec::new()
}

/// The default month names: Spanish, for every month from `"01"` to `"12"`.
pub fn default_month_names() -> (r: MonthNames)
    ensures
        r@ == spanish_month_names(),
        forall|m: int| 1 <= m <= 12 ==> #[trigger] r@.dom().contains(month_key(m)),
{
    spanish_month_table()
}

/// The application's settings.
#[derive(Clone, Debug)]
pub struct Settings {
    /// Root directory where the date structure is created.
    pub root_directory: String,
    /// Path template with strftime-style specifiers (`%Y`, `%m`, `%d`, and
    /// `%B` for the month name taken from `month_names`).
    pub create_path: String,
    /// Extensions that trigger the creation of the printed folder.
    pub extension_trigger_impresos: Vec<String>,
    /// Number of files in a day directory above which the printed folder is
    /// created.
    pub max_files_before_trigger: u8,
    /// Name of the printed folder inside the day directory.
    pub impresos_folder_name: String,
    /// Whether to make a shortcut to the day directory in the root directory.
    pub create_link_to_daily_folder: bool,
    /// Extra directories that get a copy of the shortcut.
    pub duplicate_daily_folder_link_to: Vec<String>,
    /// Month names by two-digit key.
    pub month_names: MonthNames,
}

impl Settings {
    /// These are the default settings.
    pub open spec fn is_default(self) -> bool {
        &&& self.root_directory@ == DEFAULT_ROOT_DIRECTORY@
        &&& self.create_path@ == DEFAULT_CREATE_PATH@
        &&& self.extension_trigger_impresos@.map_values(|s: String| s@) == default_extension_views()
        &&& self.max_files_before_trigger == 5
        &&& self.impresos_folder_name@ == DEFAULT_FOLDER_NAME@
        &&& self.create_link_to_daily_folder
        &&& self.duplicate_daily_folder_link_to@.len() == 0
        &&& self.month_names@ == spanish_month_names()
    }

    /// Replaces the root directory when one is given.
    pub fn override_root_directory(&mut self, root: Option<String>)
        ensures
            match root {
                Some(r) => final(self).root_directory@ == r@,
                None => final(self).root_directory@ == old(self).root_directory@,
            },
            final(self).create_path@ == old(self).create_path@,
            final(self).extension_trigger_impresos@ == old(self).extension_trigger_impresos@,
            final(self).max_files_before_trigger == old(self).max_files_before_trigger,
            final(self).impresos_folder_name@ == old(self).impresos_folder_name@,
            final(self).create_link_to_daily_folder == old(self).create_link_to_daily_folder,
            final(self).duplicate_daily_folder_link_to@ == old(self).duplicate_daily_folder_link_to@,
            final(self).month_names@ == old(self).month_names@,
    {
        if let Some(r) = root {
            self.root_directory = r;
        }
    }
}

impl Default for Settings {
    fn default() -> (r: Self)
        ensures
            r.is_default(),
    {
        Settings {
            root_directory: default_root_directory(),
            create_path: default_create_path(),
            extension_trigger_impresos: default_extensions(),
            max_files_before_trigger: default_max_files(),
            impresos_folder_name: default_done_folder(),
            create_link_to_daily_folder: default_create_link(),
            duplicate_daily_folder_link_to: default_duplicate_link_targets(),
            month_names: default_month_names(),
        }
    }
}


/// The keys, values and comments of the default configuration file.
pub open spec fn default_document_text() -> DocumentText {
    DocumentText {
        root_directory: DEFAULT_ROOT_DIRECTORY,
        root_directory_comment: ROOT_DIRECTORY_COMMENT,
        create_path: DEFAULT_CREATE_PATH,
        create_path_comment: CREATE_PATH_COMMENT,
        extensions_key: EXTENSIONS_KEY,
        extensions_comment: EXTENSIONS_COMMENT,
        max_files_comment: MAX_FILES_COMMENT,
        folder_key: FOLDER_KEY,
        folder_value: DEFAULT_FOLDER_NAME,
        folder_comment: FOLDER_COMMENT,
        create_link_comment: CREATE_LINK_COMMENT,
        duplicates_comment: DUPLICATES_COMMENT,
        month_names_comment: MONTH_NAMES_COMMENT,
    }
}

/// Computes `default_document_text()`.
fn document_text() -> (r: DocumentText)
    ensures
        r == default_document_text(),
{
    DocumentText {
        root_directory: DEFAULT_ROOT_DIRECTORY,
        root_directory_comment: ROOT_DIRECTORY_COMMENT,
        create_path: DEFAULT_CREATE_PATH,
        create_path_comment: CREATE_PATH_COMMENT,
        extensions_key: EXTENSIONS_KEY,
        extensions_comment: EXTENSIONS_COMMENT,
        max_files_comment: MAX_FILES_COMMENT,
        folder_key: FOLDER_KEY,
        folder_value: DEFAULT_FOLDER_NAME,
        folder_comment: FOLDER_COMMENT,
        create_link_comment: CREATE_LINK_COMMENT,
        duplicates_comment: DUPLICATES_COMMENT,
        month_names_comment: MONTH_NAMES_COMMENT,
    }
}

/// The keys of the default configuration file are all different.
proof fn lemma_document_keys_distinct()
    ensures
        forall|i: int, j: int|
            0 <= i < j < 8 ==> #[trigger] document_keys(default_document_text())[i] != #[trigger] document_keys(
                default_document_text(),
            )[j],
{
    reveal_strlit("root_directory");
    reveal_strlit("create_path");
    reveal_strlit("extension_trigger_impresos");
    reveal_strlit("max_files_before_trigger");
    reveal_strlit("impresos_folder_name");
    reveal_strlit("create_link_to_daily_folder");
    reveal_strlit("duplicate_daily_folder_link_to");
    reveal_strlit("month_names");
    let keys = document_keys(default_document_text());
    assert forall|i: int, j: int| 0 <= i < j < 8 implies #[trigger] keys[i] != #[trigger] keys[j] by {
        assert(keys[i].len() != keys[j].len() || keys[i][0] != keys[j][0]);
    }
}

/// The default configuration file: every default setting, each with a
/// comment that explains it, and the month names as an implicit table.
pub fn build_default_toml_document() -> (r: toml_edit::DocumentMut)
    ensures
        toml_document(r) == default_document(default_document_text(), default_extension_views(), 5),
{
    let text = document_text();
    proof {
        lemma_document_keys_distinct();
    }
    settings_document(&text, default_extensions(), default_max_files())
}

/// The configuration file `doc` gives every setting the value it has in
/// `s`, and the month-name table exactly the names of `s`.
pub open spec fn document_holds(doc: TomlTable, s: Settings) -> bool {
    &&& value_of(doc, "root_directory"@) == Some(TomlValue::Text(s.root_directory@))
    &&& value_of(doc, "create_path"@) == Some(TomlValue::Text(s.create_path@))
    &&& value_of(doc, "extension_trigger_impresos"@) == Some(
        TomlValue::TextArray(s.extension_trigger_impresos@.map_values(|x: String| x@)),
    )
    &&& value_of(doc, "max_files_before_trigger"@) == Some(TomlValue::Integer(s.max_files_before_trigger as int))
    &&& value_of(doc, "impresos_folder_name"@) == Some(TomlValue::Text(s.impresos_folder_name@))
    &&& value_of(doc, "create_link_to_daily_folder"@) == Some(TomlValue::Boolean(s.create_link_to_daily_folder))
    &&& value_of(doc, "duplicate_daily_folder_link_to"@) == Some(
        TomlValue::TextArray(s.duplicate_daily_folder_link_to@.map_values(|x: String| x@)),
    )
    &&& match value_of(doc, "month_names"@) {
        Some(TomlValue::Table(m)) => holds_names(m, s.month_names@),
        _ => false,
    }
}

/// The configuration file written on first run holds the default settings:
/// read back, it gives every setting its default value.
pub proof fn law_default_document_holds_defaults(s: Settings)
    requires
        s.is_default(),
    ensures
        document_holds(default_document(default_document_text(), default_extension_views(), 5), s),
{
    reveal_strlit("extension_trigger_impresos");
    reveal_strlit("impresos_folder_name");
    lemma_document_keys_distinct();
    lemma_default_document_values(default_document_text(), default_extension_views(), 5);
    assert(s.duplicate_daily_folder_link_to@.map_values(|x: String| x@) =~= Seq::<Seq<char>>::empty());
}

} // verus!
