//! Where the configuration is found, told from what is where.

use crate::config;
use crate::config::{ConfigErrorView, ConfigSourceView, SurroundingsView};
use crate::text;
use vstd::prelude::*;

verus! {

/// Whether there is a file at `CONFIG_PATH`.
pub open spec fn is_at_config_path(surroundings: SurroundingsView) -> bool {
    surroundings.config_path is Some && surroundings.config_path_exists
}

/// Where there is no file at `CONFIG_PATH`, the search comes to the same as if it were not set.
pub proof fn config_path_without_file_counts_for_nothing(
    surroundings: SurroundingsView,
    default_system_path: Seq<char>,
    local_dev_path: Seq<char>,
)
    requires
        !is_at_config_path(surroundings),
    ensures
        surroundings.find(default_system_path, local_dev_path) == (SurroundingsView {
            config_path: None,
            config_path_exists: false,
            ..surroundings
        }).find(default_system_path, local_dev_path),
{
}

/// A file at `CONFIG_PATH` is found, whatever else there is.
pub proof fn file_at_config_path_is_found(
    surroundings: SurroundingsView,
    default_system_path: Seq<char>,
    local_dev_path: Seq<char>,
)
    requires
        is_at_config_path(surroundings),
    ensures
        surroundings.find(default_system_path, local_dev_path) == Ok::<Seq<char>, ConfigErrorView>(
            surroundings.config_path->0,
        ),
{
}

/// A file at the system path is found, in whatever mode, if there is none at `CONFIG_PATH`.
pub proof fn file_at_system_path_is_found(
    surroundings: SurroundingsView,
    default_system_path: Seq<char>,
    local_dev_path: Seq<char>,
)
    requires
        !is_at_config_path(surroundings),
        surroundings.system_path_exists,
    ensures
        surroundings.find(default_system_path, local_dev_path) == Ok::<Seq<char>, ConfigErrorView>(
            default_system_path,
        ),
{
}

/// Outside production, a file at the local path is found, if there is none at `CONFIG_PATH` or at the
/// system path, whatever `CONFIG_PATH` is set to.
pub proof fn file_at_local_path_is_found(
    surroundings: SurroundingsView,
    default_system_path: Seq<char>,
    local_dev_path: Seq<char>,
)
    requires
        !is_at_config_path(surroundings),
        !surroundings.system_path_exists,
        surroundings.local_path_exists,
        surroundings.mode matches Some(mode) && !reads_production(mode),
    ensures
        surroundings.find(default_system_path, local_dev_path) == Ok::<Seq<char>, ConfigErrorView>(
            local_dev_path,
        ),
{
    production_is_spelled_out(surroundings);
}

/// A file is missed if and only if there is none at `CONFIG_PATH` or at the system path, and none at
/// the local path or the local path is not to be used. The error says where to put the file: it gives
/// the whole system path, and outside production the whole local path too.
pub proof fn missing_file_is_reported(
    surroundings: SurroundingsView,
    default_system_path: Seq<char>,
    local_dev_path: Seq<char>,
)
    ensures
        ({
            let is_production = surroundings.mode matches Some(mode) ==> reads_production(mode);
            let is_missing = {
                &&& !is_at_config_path(surroundings)
                &&& !surroundings.system_path_exists
                &&& is_production || !surroundings.local_path_exists
            };
            match surroundings.find(default_system_path, local_dev_path) {
                Ok(_) => !is_missing,
                Err(error) => {
                    &&& is_missing
                    &&& error matches ConfigErrorView::NotFound(message)
                    &&& text::is_made_of(
                        message,
                        if is_production {
                            seq![
                                "Configuration file not found. Set "@,
                                "CONFIG_PATH"@,
                                " or place it at "@,
                                default_system_path,
                            ]
                        } else {
                            seq![
                                "Configuration file not found. Set "@,
                                "CONFIG_PATH"@,
                                " or place it at "@,
                                default_system_path,
                                " or "@,
                                local_dev_path,
                            ]
                        },
                    )
                },
            }
        }),
{
    production_is_spelled_out(surroundings);
    let (a, b, c) = (
        "Configuration file not found. Set "@,
        "CONFIG_PATH"@,
        " or place it at "@,
    );
    text::four_parts(a, b, c, default_system_path);
    text::six_parts(a, b, c, default_system_path, " or "@, local_dev_path);
    assert(a + b + c + default_system_path + " or "@ + local_dev_path =~= a + b + c
        + default_system_path + (" or "@ + local_dev_path));
}

/// Whether the mode reads `production`, in small letters or capitals.
pub open spec fn reads_production(mode: Seq<char>) -> bool {
    let word = seq!['p', 'r', 'o', 'd', 'u', 'c', 't', 'i', 'o', 'n'];
    &&& mode.len() == word.len()
    &&& forall|i: int|
        0 <= i < mode.len() ==> #[trigger] mode[i] == word[i] || text::is_capital_of(
            mode[i],
            word[i],
        )
}

/// The process runs in production if it is not told its mode, or if the mode reads so.
pub proof fn production_is_spelled_out(surroundings: SurroundingsView)
    ensures
        surroundings.is_production() <==> (surroundings.mode matches Some(mode)
            ==> reads_production(mode)),
{
    if let Some(mode) = surroundings.mode {
        reveal_strlit("production");
        let word = seq!['p', 'r', 'o', 'd', 'u', 'c', 't', 'i', 'o', 'n'];
        assert("production"@ =~= word);
        text::only_the_case_of_letters_is_ignored(mode, word);
        assert forall|i: int| 0 <= i < word.len() implies !('A' <= #[trigger] word[i] && word[i]
            <= 'Z') by {
        }
        if surroundings.is_production() {
            assert forall|i: int| 0 <= i < mode.len() implies #[trigger] mode[i] == word[i]
                || text::is_capital_of(mode[i], word[i]) by {
            }
        }
    }
}

/// Whether the source is the environment.
pub open spec fn is_environment(source: ConfigSourceView) -> bool {
    source matches ConfigSourceView::Environment { prefix, separator } && prefix == "BUMACS"@
        && separator == "_"@
}

/// The file that was found is read, and then the environment, which overrides it. Where no file was
/// found, the environment alone is read. Any other error ends the loading.
pub proof fn what_was_found_is_read(path: Seq<char>, reason: Seq<char>)
    ensures
        config::sources(Ok(path)) matches Ok(list) && list.len() == 2 && list[0]
            == ConfigSourceView::File(path) && is_environment(list[1]),
        config::sources(Err(ConfigErrorView::NotFound(reason))) matches Ok(list) && list.len() == 1
            && is_environment(list[0]),
        config::sources(Err(ConfigErrorView::LoadError(reason))) == Err::<
            Seq<ConfigSourceView>,
            ConfigErrorView,
        >(ConfigErrorView::LoadError(reason)),
        config::sources(Err(ConfigErrorView::Config(reason))) == Err::<
            Seq<ConfigSourceView>,
            ConfigErrorView,
        >(ConfigErrorView::Config(reason)),
{
}

} // verus!
