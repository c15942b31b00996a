//! The languages of the interface and its texts.
use crate::text;
use crate::text::{ascii_lowercase, starts_with, str_eq};
use vstd::prelude::*;

verus! {

/// A language of the interface.
#[derive(Debug, Clone, Copy, PartialEq, Eq, Structural)]
pub enum Language {
    En,
    Ru,
}

pub open spec fn code_of(language: Language) -> Seq<char> {
    match language {
        Language::En => "en"@,
        Language::Ru => "ru"@,
    }
}

/// The language that a code names: Russian, also as a locale, or else English.
pub open spec fn language_named(code: Seq<char>) -> Language {
    if text::lower_text(code) == "ru"@ || "ru_"@.is_prefix_of(text::lower_text(code)) {
        Language::Ru
    } else {
        Language::En
    }
}

impl Language {
    /// The code of the language.
    pub fn code(self) -> (out: &'static str)
        ensures
            out@ == code_of(self),
    {
        match self {
            Language::En => "en",
            Language::Ru => "ru",
        }
    }

    /// The language that a code names; the case of its letters does not matter.
    pub fn from_code(value: &str) -> (out: Language)
        ensures
            out == language_named(value@),
    {
        let lower: String = ascii_lowercase(value);
        if str_eq(lower.as_str(), "ru") || starts_with(lower.as_str(), "ru_") {
            Language::Ru
        } else {
            Language::En
        }
    }
}

/// The code of a language names it.
pub proof fn codes_name_their_language(language: Language)
    ensures
        language_named(code_of(language)) == language,
{
    reveal_strlit("en");
    reveal_strlit("ru");
    reveal_strlit("ru_");
    assert(text::lower_text("ru"@) =~= "ru"@);
    assert(text::lower_text("en"@) =~= "en"@);
    assert("en"@[0] != "ru"@[0]);
}

/// The Russian text for a key.
pub open spec fn russian(key: Seq<char>) -> Option<Seq<char>> {
    if key == "home"@ {
        Some("Главная"@)
    } else if key == "capture"@ {
        Some("Снимок"@)
    } else if key == "library"@ {
        Some("Библиотека"@)
    } else if key == "settings"@ {
        Some("Настройки"@)
    } else if key == "new"@ {
        Some("Сохранить текущее"@)
    } else if key == "search"@ {
        Some("Поиск рабочих окружений…"@)
    } else if key == "open"@ {
        Some("Открыть"@)
    } else if key == "repair"@ {
        Some("Исправить"@)
    } else if key == "edit"@ {
        Some("Изменить"@)
    } else if key == "ready"@ {
        Some("Готово"@)
    } else if key == "layout_changed"@ {
        Some("Макет изменён"@)
    } else if key == "offline"@ {
        Some("Niri недоступен"@)
    } else if key == "missing_one"@ {
        Some("1 приложение отсутствует"@)
    } else if key == "missing_many"@ {
        Some("приложений отсутствуют"@)
    } else if key == "ambiguous"@ {
        Some("Нужно уточнить совпадение"@)
    } else if key == "what_it_does"@ {
        Some("Что делает Workbench"@)
    } else if key == "what_it_does_body"@ {
        Some("Сохраняет рабочие окружения, открывает их одной кнопкой и восстанавливает раскладку без лишних копий окон."@)
    } else if key == "open_hint"@ {
        Some("Открыть — запустить недостающее и восстановить макет · Исправить — только вернуть существующие окна"@)
    } else if key == "empty_title"@ {
        Some("Пока нет рабочих окружений"@)
    } else if key == "empty_body"@ {
        Some("Расставь реальные окна как тебе удобно и нажми «Сохранить текущее». Workbench снимет открытые окна, приложения и раскладку."@)
    } else if key == "capture_title"@ {
        Some("Сохранить текущее окружение"@)
    } else if key == "capture_intro"@ {
        Some("Workbench снимет реальные окна этого workspace, их приложения, позиции и доступный контекст запуска. Проверь результат и сохрани."@)
    } else if key == "detected_windows"@ {
        Some("Найденные окна"@)
    } else if key == "workbench_details"@ {
        Some("Параметры окружения"@)
    } else if key == "name"@ {
        Some("Имя"@)
    } else if key == "workspace_name"@ {
        Some("Workspace"@)
    } else if key == "output"@ {
        Some("Монитор"@)
    } else if key == "auto"@ {
        Some("Авто"@)
    } else if key == "launch_command"@ {
        Some("Команда запуска"@)
    } else if key == "reuse_only"@ {
        Some("Только переиспользование"@)
    } else if key == "create_workbench"@ {
        Some("Сохранить снимок"@)
    } else if key == "cancel"@ {
        Some("Отмена"@)
    } else if key == "edit_workbench"@ {
        Some("Редактор окружения"@)
    } else if key == "save"@ {
        Some("Сохранить"@)
    } else if key == "preview"@ {
        Some("Предпросмотр"@)
    } else if key == "layout"@ {
        Some("Макет"@)
    } else if key == "windows"@ {
        Some("Окна"@)
    } else if key == "selected_window"@ {
        Some("Выбранное окно"@)
    } else if key == "logical_name"@ {
        Some("Имя окна"@)
    } else if key == "column"@ {
        Some("Колонка"@)
    } else if key == "column_width"@ {
        Some("Ширина колонки"@)
    } else if key == "window_height"@ {
        Some("Высота окна"@)
    } else if key == "display_mode"@ {
        Some("Режим колонки"@)
    } else if key == "normal"@ {
        Some("Обычный"@)
    } else if key == "tabbed"@ {
        Some("Вкладки"@)
    } else if key == "not_set"@ {
        Some("Авто"@)
    } else if key == "final_focus"@ {
        Some("Фокус после открытия"@)
    } else if key == "match_app"@ {
        Some("App ID"@)
    } else if key == "match_title"@ {
        Some("Заголовок окна"@)
    } else if key == "advanced"@ {
        Some("Дополнительно"@)
    } else if key == "language"@ {
        Some("Язык"@)
    } else if key == "language_help"@ {
        Some("Язык интерфейса сохраняется отдельно от рецептов Workbench."@)
    } else if key == "appearance"@ {
        Some("Интерфейс"@)
    } else if key == "quick_launcher"@ {
        Some("Быстрый запуск"@)
    } else if key == "quick_hint"@ {
        Some("Enter — открыть · Ctrl+Enter — исправить"@)
    } else if key == "capture_error"@ {
        Some("Не удалось прочитать текущий workspace"@)
    } else if key == "saved"@ {
        Some("Сохранено"@)
    } else if key == "opening"@ {
        Some("Открываю окружение…"@)
    } else if key == "repairing"@ {
        Some("Восстанавливаю макет…"@)
    } else if key == "config_error"@ {
        Some("Ошибка конфигурации"@)
    } else if key == "refresh"@ {
        Some("Обновить"@)
    } else {
        None
    }
}

/// The English text for a key.
pub open spec fn english(key: Seq<char>) -> Option<Seq<char>> {
    if key == "home"@ {
        Some("Home"@)
    } else if key == "capture"@ {
        Some("Snapshot"@)
    } else if key == "library"@ {
        Some("Library"@)
    } else if key == "settings"@ {
        Some("Settings"@)
    } else if key == "new"@ {
        Some("Save current"@)
    } else if key == "search"@ {
        Some("Search workbenches…"@)
    } else if key == "open"@ {
        Some("Open"@)
    } else if key == "repair"@ {
        Some("Repair"@)
    } else if key == "edit"@ {
        Some("Edit"@)
    } else if key == "ready"@ {
        Some("Ready"@)
    } else if key == "layout_changed"@ {
        Some("Layout changed"@)
    } else if key == "offline"@ {
        Some("Niri unavailable"@)
    } else if key == "missing_one"@ {
        Some("1 application missing"@)
    } else if key == "missing_many"@ {
        Some("applications missing"@)
    } else if key == "ambiguous"@ {
        Some("Matching needs attention"@)
    } else if key == "what_it_does"@ {
        Some("What Workbench does"@)
    } else if key == "what_it_does_body"@ {
        Some("Save project workspaces, reopen them in one click, and repair layout drift without opening duplicates."@)
    } else if key == "open_hint"@ {
        Some("Open = launch missing apps and restore layout · Repair = move existing windows only"@)
    } else if key == "empty_title"@ {
        Some("No workbenches yet"@)
    } else if key == "empty_body"@ {
        Some("Arrange the real windows you want, then choose Save current. Workbench snapshots the open apps and their layout."@)
    } else if key == "capture_title"@ {
        Some("Save current workspace"@)
    } else if key == "capture_intro"@ {
        Some("Workbench snapshots the real windows on this workspace, their installed apps, positions, and available launch context. Review and save."@)
    } else if key == "detected_windows"@ {
        Some("Detected windows"@)
    } else if key == "workbench_details"@ {
        Some("Workbench details"@)
    } else if key == "name"@ {
        Some("Name"@)
    } else if key == "workspace_name"@ {
        Some("Workspace"@)
    } else if key == "output"@ {
        Some("Output"@)
    } else if key == "auto"@ {
        Some("Auto"@)
    } else if key == "launch_command"@ {
        Some("Launch command"@)
    } else if key == "reuse_only"@ {
        Some("Reuse only"@)
    } else if key == "create_workbench"@ {
        Some("Save snapshot"@)
    } else if key == "cancel"@ {
        Some("Cancel"@)
    } else if key == "edit_workbench"@ {
        Some("Edit workbench"@)
    } else if key == "save"@ {
        Some("Save"@)
    } else if key == "preview"@ {
        Some("Preview"@)
    } else if key == "layout"@ {
        Some("Layout"@)
    } else if key == "windows"@ {
        Some("Windows"@)
    } else if key == "selected_window"@ {
        Some("Selected window"@)
    } else if key == "logical_name"@ {
        Some("Window name"@)
    } else if key == "column"@ {
        Some("Column"@)
    } else if key == "column_width"@ {
        Some("Column width"@)
    } else if key == "window_height"@ {
        Some("Window height"@)
    } else if key == "display_mode"@ {
        Some("Column mode"@)
    } else if key == "normal"@ {
        Some("Normal"@)
    } else if key == "tabbed"@ {
        Some("Tabbed"@)
    } else if key == "not_set"@ {
        Some("Auto"@)
    } else if key == "final_focus"@ {
        Some("Focus after opening"@)
    } else if key == "match_app"@ {
        Some("App ID"@)
    } else if key == "match_title"@ {
        Some("Window title"@)
    } else if key == "advanced"@ {
        Some("Advanced"@)
    } else if key == "language"@ {
        Some("Language"@)
    } else if key == "language_help"@ {
        Some("Interface language is stored separately from Workbench recipes."@)
    } else if key == "appearance"@ {
        Some("Interface"@)
    } else if key == "quick_launcher"@ {
        Some("Quick launcher"@)
    } else if key == "quick_hint"@ {
        Some("Enter = open · Ctrl+Enter = repair"@)
    } else if key == "capture_error"@ {
        Some("Could not inspect the current workspace"@)
    } else if key == "saved"@ {
        Some("Saved"@)
    } else if key == "opening"@ {
        Some("Opening workbench…"@)
    } else if key == "repairing"@ {
        Some("Repairing layout…"@)
    } else if key == "config_error"@ {
        Some("Configuration error"@)
    } else if key == "refresh"@ {
        Some("Refresh"@)
    } else {
        None
    }
}

/// The text for a key. What is not there in a language is said in English, and
/// what is not there at all by its key.
pub open spec fn text_for(language: Language, key: Seq<char>) -> Seq<char> {
    if language == Language::Ru && russian(key) is Some {
        russian(key)->0
    } else if english(key) is Some {
        english(key)->0
    } else {
        key
    }
}

fn in_russian(key: &str) -> (out: Option<&'static str>)
    ensures
        match out {
            Some(s) => russian(key@) == Some(s@),
            None => russian(key@) is None,
        },
{
    if str_eq(key, "home") {
        Some("Главная")
    } else if str_eq(key, "capture") {
        Some("Снимок")
    } else if str_eq(key, "library") {
        Some("Библиотека")
    } else if str_eq(key, "settings") {
        Some("Настройки")
    } else if str_eq(key, "new") {
        Some("Сохранить текущее")
    } else if str_eq(key, "search") {
        Some("Поиск рабочих окружений…")
    } else if str_eq(key, "open") {
        Some("Открыть")
    } else if str_eq(key, "repair") {
        Some("Исправить")
    } else if str_eq(key, "edit") {
        Some("Изменить")
    } else if str_eq(key, "ready") {
        Some("Готово")
    } else if str_eq(key, "layout_changed") {
        Some("Макет изменён")
    } else if str_eq(key, "offline") {
        Some("Niri недоступен")
    } else if str_eq(key, "missing_one") {
        Some("1 приложение отсутствует")
    } else if str_eq(key, "missing_many") {
        Some("приложений отсутствуют")
    } else if str_eq(key, "ambiguous") {
        Some("Нужно уточнить совпадение")
    } else if str_eq(key, "what_it_does") {
        Some("Что делает Workbench")
    } else if str_eq(key, "what_it_does_body") {
        Some("Сохраняет рабочие окружения, открывает их одной кнопкой и восстанавливает раскладку без лишних копий окон.")
    } else if str_eq(key, "open_hint") {
        Some("Открыть — запустить недостающее и восстановить макет · Исправить — только вернуть существующие окна")
    } else if str_eq(key, "empty_title") {
        Some("Пока нет рабочих окружений")
    } else if str_eq(key, "empty_body") {
        Some("Расставь реальные окна как тебе удобно и нажми «Сохранить текущее». Workbench снимет открытые окна, приложения и раскладку.")
    } else if str_eq(key, "capture_title") {
        Some("Сохранить текущее окружение")
    } else if str_eq(key, "capture_intro") {
        Some("Workbench снимет реальные окна этого workspace, их приложения, позиции и доступный контекст запуска. Проверь результат и сохрани.")
    } else if str_eq(key, "detected_windows") {
        Some("Найденные окна")
    } else if str_eq(key, "workbench_details") {
        Some("Параметры окружения")
    } else if str_eq(key, "name") {
        Some("Имя")
    } else if str_eq(key, "workspace_name") {
        Some("Workspace")
    } else if str_eq(key, "output") {
        Some("Монитор")
    } else if str_eq(key, "auto") {
        Some("Авто")
    } else if str_eq(key, "launch_command") {
        Some("Команда запуска")
    } else if str_eq(key, "reuse_only") {
        Some("Только переиспользование")
    } else if str_eq(key, "create_workbench") {
        Some("Сохранить снимок")
    } else if str_eq(key, "cancel") {
        Some("Отмена")
    } else if str_eq(key, "edit_workbench") {
        Some("Редактор окружения")
    } else if str_eq(key, "save") {
        Some("Сохранить")
    } else if str_eq(key, "preview") {
        Some("Предпросмотр")
    } else if str_eq(key, "layout") {
        Some("Макет")
    } else if str_eq(key, "windows") {
        Some("Окна")
    } else if str_eq(key, "selected_window") {
        Some("Выбранное окно")
    } else if str_eq(key, "logical_name") {
        Some("Имя окна")
    } else if str_eq(key, "column") {
        Some("Колонка")
    } else if str_eq(key, "column_width") {
        Some("Ширина колонки")
    } else if str_eq(key, "window_height") {
        Some("Высота окна")
    } else if str_eq(key, "display_mode") {
        Some("Режим колонки")
    } else if str_eq(key, "normal") {
        Some("Обычный")
    } else if str_eq(key, "tabbed") {
        Some("Вкладки")
    } else if str_eq(key, "not_set") {
        Some("Авто")
    } else if str_eq(key, "final_focus") {
        Some("Фокус после открытия")
    } else if str_eq(key, "match_app") {
        Some("App ID")
    } else if str_eq(key, "match_title") {
        Some("Заголовок окна")
    } else if str_eq(key, "advanced") {
        Some("Дополнительно")
    } else if str_eq(key, "language") {
        Some("Язык")
    } else if str_eq(key, "language_help") {
        Some("Язык интерфейса сохраняется отдельно от рецептов Workbench.")
    } else if str_eq(key, "appearance") {
        Some("Интерфейс")
    } else if str_eq(key, "quick_launcher") {
        Some("Быстрый запуск")
    } else if str_eq(key, "quick_hint") {
        Some("Enter — открыть · Ctrl+Enter — исправить")
    } else if str_eq(key, "capture_error") {
        Some("Не удалось прочитать текущий workspace")
    } else if str_eq(key, "saved") {
        Some("Сохранено")
    } else if str_eq(key, "opening") {
        Some("Открываю окружение…")
    } else if str_eq(key, "repairing") {
        Some("Восстанавливаю макет…")
    } else if str_eq(key, "config_error") {
        Some("Ошибка конфигурации")
    } else if str_eq(key, "refresh") {
        Some("Обновить")
    } else {
        None
    }
}

fn in_english(key: &str) -> (out: Option<&'static str>)
    ensures
        match out {
            Some(s) => english(key@) == Some(s@),
            None => english(key@) is None,
        },
{
    if str_eq(key, "home") {
        Some("Home")
    } else if str_eq(key, "capture") {
        Some("Snapshot")
    } else if str_eq(key, "library") {
        Some("Library")
    } else if str_eq(key, "settings") {
        Some("Settings")
    } else if str_eq(key, "new") {
        Some("Save current")
    } else if str_eq(key, "search") {
        Some("Search workbenches…")
    } else if str_eq(key, "open") {
        Some("Open")
    } else if str_eq(key, "repair") {
        Some("Repair")
    } else if str_eq(key, "edit") {
        Some("Edit")
    } else if str_eq(key, "ready") {
        Some("Ready")
    } else if str_eq(key, "layout_changed") {
        Some("Layout changed")
    } else if str_eq(key, "offline") {
        Some("Niri unavailable")
    } else if str_eq(key, "missing_one") {
        Some("1 application missing")
    } else if str_eq(key, "missing_many") {
        Some("applications missing")
    } else if str_eq(key, "ambiguous") {
        Some("Matching needs attention")
    } else if str_eq(key, "what_it_does") {
        Some("What Workbench does")
    } else if str_eq(key, "what_it_does_body") {
        Some("Save project workspaces, reopen them in one click, and repair layout drift without opening duplicates.")
    } else if str_eq(key, "open_hint") {
        Some("Open = launch missing apps and restore layout · Repair = move existing windows only")
    } else if str_eq(key, "empty_title") {
        Some("No workbenches yet")
    } else if str_eq(key, "empty_body") {
        Some("Arrange the real windows you want, then choose Save current. Workbench snapshots the open apps and their layout.")
    } else if str_eq(key, "capture_title") {
        Some("Save current workspace")
    } else if str_eq(key, "capture_intro") {
        Some("Workbench snapshots the real windows on this workspace, their installed apps, positions, and available launch context. Review and save.")
    } else if str_eq(key, "detected_windows") {
        Some("Detected windows")
    } else if str_eq(key, "workbench_details") {
        Some("Workbench details")
    } else if str_eq(key, "name") {
        Some("Name")
    } else if str_eq(key, "workspace_name") {
        Some("Workspace")
    } else if str_eq(key, "output") {
        Some("Output")
    } else if str_eq(key, "auto") {
        Some("Auto")
    } else if str_eq(key, "launch_command") {
        Some("Launch command")
    } else if str_eq(key, "reuse_only") {
        Some("Reuse only")
    } else if str_eq(key, "create_workbench") {
        Some("Save snapshot")
    } else if str_eq(key, "cancel") {
        Some("Cancel")
    } else if str_eq(key, "edit_workbench") {
        Some("Edit workbench")
    } else if str_eq(key, "save") {
        Some("Save")
    } else if str_eq(key, "preview") {
        Some("Preview")
    } else if str_eq(key, "layout") {
        Some("Layout")
    } else if str_eq(key, "windows") {
        Some("Windows")
    } else if str_eq(key, "selected_window") {
        Some("Selected window")
    } else if str_eq(key, "logical_name") {
        Some("Window name")
    } else if str_eq(key, "column") {
        Some("Column")
    } else if str_eq(key, "column_width") {
        Some("Column width")
    } else if str_eq(key, "window_height") {
        Some("Window height")
    } else if str_eq(key, "display_mode") {
        Some("Column mode")
    } else if str_eq(key, "normal") {
        Some("Normal")
    } else if str_eq(key, "tabbed") {
        Some("Tabbed")
    } else if str_eq(key, "not_set") {
        Some("Auto")
    } else if str_eq(key, "final_focus") {
        Some("Focus after opening")
    } else if str_eq(key, "match_app") {
        Some("App ID")
    } else if str_eq(key, "match_title") {
        Some("Window title")
    } else if str_eq(key, "advanced") {
        Some("Advanced")
    } else if str_eq(key, "language") {
        Some("Language")
    } else if str_eq(key, "language_help") {
        Some("Interface language is stored separately from Workbench recipes.")
    } else if str_eq(key, "appearance") {
        Some("Interface")
    } else if str_eq(key, "quick_launcher") {
        Some("Quick launcher")
    } else if str_eq(key, "quick_hint") {
        Some("Enter = open · Ctrl+Enter = repair")
    } else if str_eq(key, "capture_error") {
        Some("Could not inspect the current workspace")
    } else if str_eq(key, "saved") {
        Some("Saved")
    } else if str_eq(key, "opening") {
        Some("Opening workbench…")
    } else if str_eq(key, "repairing") {
        Some("Repairing layout…")
    } else if str_eq(key, "config_error") {
        Some("Configuration error")
    } else if str_eq(key, "refresh") {
        Some("Refresh")
    } else {
        None
    }
}

/// The text for a key in a language.
pub fn tr(language: Language, key: &str) -> (out: &str)
    ensures
        out@ == text_for(language, key@),
{
    if language == Language::Ru {
        if let Some(s) = in_russian(key) {
            return s;
        }
    }
    match in_english(key) {
        Some(s) => s,
        None => key,
    }
}

} // verus!
